//! Rules over the list of API profiles as a whole: unique ids, unique names per
//! provider, each profile's own rules, and the profile that serves recognition.
use vstd::prelude::*;

use crate::config::{ApiProfile, AsrConfig};
use crate::providers::{
    enables, profile_enables, profile_err, resolve_profile_service, resolve_spec,
    validate_profile, views, CAPABILITY_SPEECH_TO_TEXT,
};
use crate::rules::{err_of, first_err, lemma_first_err_at, lemma_first_err_none};
use crate::text::{
    chars_of, concat, is_ascii_alnum, str_eq, to_lowercase, trim, trim_str, unicode_lower,
};

verus! {

/// A profile id: 1 to 64 ASCII letters, digits, `-` or `_`.
pub open spec fn valid_profile_id(id: Seq<char>) -> bool {
    1 <= id.len() <= 64 && forall|i: int|
        0 <= i < id.len() ==> is_ascii_alnum(#[trigger] id[i]) || id[i] == '-' || id[i] == '_'
}

/// The lower-cased trimmed name of each profile.
pub open spec fn name_keys(ps: Seq<ApiProfile>) -> Seq<Seq<char>> {
    Seq::new(ps.len(), |j: int| unicode_lower(trim(ps[j].name@)))
}

/// Why the `i`-th profile of `ps` is not acceptable, given that the ones
/// before it are; `keys[j]` is the lower-cased trimmed name of profile `j`,
/// and names must be unique per provider under it.
pub open spec fn profile_entry_err_keyed(ps: Seq<ApiProfile>, i: int, keys: Seq<Seq<char>>) -> Option<
    Seq<char>,
> {
    let p = ps[i];
    let name = trim(p.name@);
    if !valid_profile_id(p.id@) || exists|j: int| 0 <= j < i && #[trigger] ps[j].id@ == p.id@ {
        Some("An API profile ID is invalid or duplicated"@)
    } else if name.len() == 0 || name.len() > 50 {
        Some("An API profile name must contain 1 to 50 characters"@)
    } else if exists|j: int|
        0 <= j < i && #[trigger] ps[j].provider@ == p.provider@ && keys[j] == keys[i] {
        Some("API profile names must be unique per provider: "@ + name)
    } else {
        profile_err(&p)
    }
}

/// Why the `i`-th profile of `ps` is not acceptable, given that the ones before it are.
pub open spec fn profile_entry_err(ps: Seq<ApiProfile>, i: int) -> Option<Seq<char>> {
    profile_entry_err_keyed(ps, i, name_keys(ps))
}

/// The profile checks, one per position.
pub open spec fn profile_entry_checks(ps: Seq<ApiProfile>) -> spec_fn(int) -> Option<Seq<char>> {
    |i: int| profile_entry_err(ps, i)
}

/// Position of the first profile at or after `k` whose id is `id`.
pub open spec fn find_from(ps: Seq<ApiProfile>, id: Seq<char>, k: int) -> Option<int>
    decreases ps.len() - k,
{
    if k < 0 || k >= ps.len() {
        None
    } else if ps[k].id@ == id {
        Some(k)
    } else {
        find_from(ps, id, k + 1)
    }
}

/// Position of the first profile whose id is `id`.
pub open spec fn find_profile_index(ps: Seq<ApiProfile>, id: Seq<char>) -> Option<int> {
    find_from(ps, id, 0)
}

proof fn lemma_find_from_skip(ps: Seq<ApiProfile>, id: Seq<char>, k: int)
    requires
        0 <= k <= ps.len(),
        forall|j: int| 0 <= j < k ==> #[trigger] ps[j].id@ != id,
    ensures
        find_from(ps, id, 0) == find_from(ps, id, k),
    decreases k,
{
    if k > 0 {
        lemma_find_from_skip(ps, id, k - 1);
    }
}

/// The first profile whose id is `id`, by position.
pub fn find_profile(profiles: &Vec<ApiProfile>, id: &str) -> (r: Option<usize>)
    ensures
        match r {
            Some(k) => find_profile_index(profiles@, id@) == Some(k as int) && k < profiles@.len(),
            None => find_profile_index(profiles@, id@).is_none(),
        },
{
    let mut i: usize = 0;
    while i < profiles.len()
        invariant
            i <= profiles@.len(),
            forall|j: int| 0 <= j < i ==> #[trigger] profiles@[j].id@ != id@,
        decreases profiles@.len() - i,
    {
        if str_eq(profiles[i].id.as_str(), id) {
            proof {
                lemma_find_from_skip(profiles@, id@, i as int);
            }
            return Some(i);
        }
        i = i + 1;
    }
    proof {
        lemma_find_from_skip(profiles@, id@, i as int);
    }
    None
}

/// Why the recognition profile selection is not acceptable.
pub open spec fn active_profile_err(asr: AsrConfig) -> Option<Seq<char>> {
    let ps = asr.api_profiles@;
    if asr.backend@ == "local_whisper"@ {
        None
    } else {
        match asr.active_profile_id {
            None => None,
            Some(id) => match find_profile_index(ps, id@) {
                None => Some("The active recognition API profile does not exist"@),
                Some(k) => if !enables(&ps[k], CAPABILITY_SPEECH_TO_TEXT@) {
                    Some("The active API profile has not enabled speech recognition"@)
                } else {
                    match resolve_spec(&ps[k], asr.backend@) {
                        Err(e) => Some(
                            "The active API profile does not match the recognition service: "@
                                + e,
                        ),
                        Ok(_) => None,
                    }
                },
            },
        }
    }
}

/// Why the API profiles are not acceptable: each profile in order, then the
/// profile selected for recognition.
pub open spec fn api_profiles_err(asr: AsrConfig) -> Option<Seq<char>> {
    let ps = asr.api_profiles@;
    let e = first_err(profile_entry_checks(ps), 0, ps.len() as int);
    if e.is_some() {
        e
    } else {
        active_profile_err(asr)
    }
}

fn check_profile_id(id: &str) -> (r: bool)
    ensures
        r == valid_profile_id(id@),
{
    let cs = chars_of(id);
    if cs.len() < 1 || cs.len() > 64 {
        return false;
    }
    let mut i: usize = 0;
    while i < cs.len()
        invariant
            i <= cs.len(),
            cs@ == id@,
            forall|j: int|
                0 <= j < i ==> is_ascii_alnum(#[trigger] cs@[j]) || cs@[j] == '-' || cs@[j] == '_',
        decreases cs.len() - i,
    {
        let c = cs[i];
        let ok = ('a' <= c && c <= 'z') || ('A' <= c && c <= 'Z') || ('0' <= c && c <= '9') || c
            == '-' || c == '_';
        if !ok {
            assert(!(is_ascii_alnum(id@[i as int]) || id@[i as int] == '-' || id@[i as int] == '_'));
            return false;
        }
        i = i + 1;
    }
    true
}

/// Checks the `i`-th profile, given the lower-cased trimmed names `keys` of
/// profiles `0..=i`.
pub fn check_profile_entry(profiles: &Vec<ApiProfile>, i: usize, keys: &Vec<String>) -> (r: Result<
    (),
    String,
>)
    requires
        i < profiles@.len(),
        keys@.len() == i + 1,
    ensures
        err_of(r) == profile_entry_err_keyed(profiles@, i as int, views(keys@)),
{
    let ghost ps = profiles@;
    let ghost ks = views(keys@);
    let p = &profiles[i];
    let mut valid = check_profile_id(p.id.as_str());
    let mut j: usize = 0;
    while valid && j < i
        invariant
            j <= i < ps.len(),
            ps == profiles@,
            p == ps[i as int],
            valid ==> valid_profile_id(p.id@) && forall|k: int|
                0 <= k < j ==> #[trigger] ps[k].id@ != p.id@,
            !valid ==> !valid_profile_id(p.id@) || exists|k: int|
                0 <= k < i && #[trigger] ps[k].id@ == p.id@,
        decreases i - j,
    {
        if str_eq(profiles[j].id.as_str(), p.id.as_str()) {
            assert(ps[j as int].id@ == p.id@);
            valid = false;
        }
        j = j + 1;
    }
    if !valid {
        return Err("An API profile ID is invalid or duplicated".to_owned());
    }
    let name = trim_str(p.name.as_str());
    let n = crate::text::char_count(name.as_str());
    if n == 0 || n > 50 {
        return Err("An API profile name must contain 1 to 50 characters".to_owned());
    }
    let key = keys[i].as_str();
    let mut j: usize = 0;
    while j < i
        invariant
            j <= i < ps.len(),
            ps == profiles@,
            p == ps[i as int],
            keys@.len() == i + 1,
            ks == views(keys@),
            key@ == ks[i as int],
            name@ == trim(p.name@),
            1 <= name@.len() <= 50,
            valid_profile_id(p.id@),
            forall|k: int| 0 <= k < i ==> #[trigger] ps[k].id@ != p.id@,
            forall|k: int|
                0 <= k < j ==> !(#[trigger] ps[k].provider@ == p.provider@ && ks[k] == ks[i as int]),
        decreases i - j,
    {
        if str_eq(profiles[j].provider.as_str(), p.provider.as_str()) && str_eq(
            keys[j].as_str(),
            key,
        ) {
            assert(ps[j as int].provider@ == p.provider@ && ks[j as int] == ks[i as int]);
            return Err(concat("API profile names must be unique per provider: ", name.as_str()));
        }
        j = j + 1;
    }
    validate_profile(p)
}

fn validate_active_profile(asr: &AsrConfig) -> (r: Result<(), String>)
    ensures
        err_of(r) == active_profile_err(*asr),
{
    if str_eq(asr.backend.as_str(), "local_whisper") {
        return Ok(());
    }
    let id = match &asr.active_profile_id {
        None => {
            return Ok(());
        },
        Some(id) => id,
    };
    let k = match find_profile(&asr.api_profiles, id.as_str()) {
        None => {
            return Err("The active recognition API profile does not exist".to_owned());
        },
        Some(k) => k,
    };
    let active = &asr.api_profiles[k];
    if !profile_enables(active, CAPABILITY_SPEECH_TO_TEXT) {
        return Err("The active API profile has not enabled speech recognition".to_owned());
    }
    match resolve_profile_service(active, asr.backend.as_str()) {
        Err(e) => Err(
            concat("The active API profile does not match the recognition service: ", e.as_str()),
        ),
        Ok(_) => Ok(()),
    }
}

/// Checks every API profile, then the profile selected for recognition.
pub fn validate_api_profiles(asr: &AsrConfig) -> (r: Result<(), String>)
    ensures
        err_of(r) == api_profiles_err(*asr),
{
    let profiles = &asr.api_profiles;
    let ghost ps = profiles@;
    let ghost f = profile_entry_checks(ps);
    let mut keys: Vec<String> = Vec::new();
    let mut i: usize = 0;
    while i < profiles.len()
        invariant
            i <= ps.len(),
            ps == profiles@,
            ps == asr.api_profiles@,
            f == profile_entry_checks(ps),
            keys@.len() == i,
            views(keys@) == name_keys(ps).take(i as int),
            forall|j: int| 0 <= j < i ==> #[trigger] f(j).is_none(),
        decreases ps.len() - i,
    {
        let trimmed = trim_str(profiles[i].name.as_str());
        keys.push(to_lowercase(trimmed.as_str()));
        assert(views(keys@) =~= name_keys(ps).take(i + 1));
        let r = check_profile_entry(profiles, i, &keys);
        assert(profile_entry_err_keyed(ps, i as int, views(keys@)) == f(i as int)) by {
            let a = views(keys@);
            let b = name_keys(ps);
            assert forall|j: int| 0 <= j <= i implies a[j] == b[j] by {}
            assert((exists|j: int|
                0 <= j < i && #[trigger] ps[j].provider@ == ps[i as int].provider@ && a[j] == a[i as int])
                == (exists|j: int|
                0 <= j < i && #[trigger] ps[j].provider@ == ps[i as int].provider@ && b[j] == b[i as int]));
        }
        match r {
            Err(e) => {
                proof {
                    lemma_first_err_at(f, 0, ps.len() as int, i as int);
                }
                return Err(e);
            },
            Ok(()) => {},
        }
        i = i + 1;
    }
    proof {
        lemma_first_err_none(f, 0, ps.len() as int);
    }
    validate_active_profile(asr)
}

} // verus!
