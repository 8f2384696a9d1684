//! API keys and integration tokens: where each secret is stored, how a new
//! one is checked, and the store of secrets itself, modelled as a map from
//! target name to secret.
use vstd::prelude::*;

use crate::providers::{parse_provider, str_views, environment_spec, provider_from, ALIBABA_PROVIDER, OPENAI_PROVIDER};
use crate::text::{concat, str_eq, trim, trim_str, utf8_len};

verus! {

/// Store target of the external API token.
pub const EXTERNAL_API_TARGET: &'static str = "VRCS/ExternalAPI/token";
/// Environment variable that overrides the external API token.
pub const EXTERNAL_API_ENV: &'static str = "VRCS_EXTERNAL_API_TOKEN";
/// Store target of the VRCX-0 integration token.
pub const VRCX_TARGET: &'static str = "VRCS/VRCXIntegration/token";
/// Environment variable that overrides the VRCX-0 integration token.
pub const VRCX_ENV: &'static str = "VRCS_VRCX_INTEGRATION_TOKEN";
/// Location of the credential file inside the data directory.
pub const CREDENTIALS_FILE: &'static str = "vrcs/credentials.json";

/// Whether and where a secret is configured.
#[derive(Clone, Debug, PartialEq, Eq)]
pub struct CredentialStatus {
    pub configured: bool,
    pub stored_configured: bool,
    pub environment_override: bool,
    pub source: Option<&'static str>,
}

/// The status reported for a secret: the environment wins over the store.
pub open spec fn status_spec(environment_override: bool, stored_configured: bool) -> (bool, bool, bool, Option<Seq<char>>) {
    (
        environment_override || stored_configured,
        stored_configured,
        environment_override,
        if environment_override {
            Some("environment"@)
        } else if stored_configured {
            Some("credential_manager"@)
        } else {
            None
        },
    )
}

impl CredentialStatus {
    pub open spec fn view_tuple(&self) -> (bool, bool, bool, Option<Seq<char>>) {
        (
            self.configured,
            self.stored_configured,
            self.environment_override,
            match self.source {
                Some(s) => Some(s@),
                None => None,
            },
        )
    }

    /// The status of a secret, given whether the environment overrides it and
    /// whether the store holds it.
    pub fn from_sources(environment_override: bool, stored_configured: bool) -> (r: Self)
        ensures
            r.view_tuple() == status_spec(environment_override, stored_configured),
    {
        let source = if environment_override {
            Some("environment")
        } else if stored_configured {
            Some("credential_manager")
        } else {
            None
        };
        proof {
            reveal_strlit("environment");
            reveal_strlit("credential_manager");
        }
        CredentialStatus {
            configured: environment_override || stored_configured,
            stored_configured,
            environment_override,
            source,
        }
    }
}

/// Store target of a profile's API key.
pub open spec fn target_spec(profile_id: Seq<char>) -> Seq<char> {
    "VRCS/API/profile/"@ + profile_id
}

/// The legacy store target of a profile's API key.
pub open spec fn old_profile_target_spec(profile_id: Seq<char>) -> Seq<char> {
    "VRCS/ASR/profile/"@ + profile_id
}

/// Store target of the key of a profile migrated from the single-key layout.
pub open spec fn legacy_target_spec(profile_id: Seq<char>, provider: Seq<char>) -> Option<Seq<char>> {
    if profile_id == "legacy-alibaba-cloud"@ && provider == ALIBABA_PROVIDER@ {
        Some("VRCS/ASR/qwen"@)
    } else if profile_id == "legacy-openai"@ && provider == OPENAI_PROVIDER@ {
        Some("VRCS/ASR/openai"@)
    } else {
        None
    }
}

/// Store target of a profile's API key.
pub fn target(profile_id: &str) -> (r: String)
    ensures
        r@ == target_spec(profile_id@),
{
    concat("VRCS/API/profile/", profile_id)
}

/// The legacy store target of a profile's API key.
pub fn old_profile_target(profile_id: &str) -> (r: String)
    ensures
        r@ == old_profile_target_spec(profile_id@),
{
    concat("VRCS/ASR/profile/", profile_id)
}

/// Store target of the key of a profile migrated from the single-key layout.
pub fn legacy_target(profile_id: &str, provider: &str) -> (r: Option<String>)
    ensures
        match r {
            Some(t) => legacy_target_spec(profile_id@, provider@) == Some(t@),
            None => legacy_target_spec(profile_id@, provider@).is_none(),
        },
{
    if str_eq(profile_id, "legacy-alibaba-cloud") && str_eq(provider, ALIBABA_PROVIDER) {
        Some("VRCS/ASR/qwen".to_owned())
    } else if str_eq(profile_id, "legacy-openai") && str_eq(provider, OPENAI_PROVIDER) {
        Some("VRCS/ASR/openai".to_owned())
    } else {
        None
    }
}

/// The environment variables of a provider's API key and the older names read after them.
pub fn environment_variables(provider: &str) -> (r: Result<(Vec<&'static str>, Vec<&'static str>), String>)
    ensures
        match r {
            Ok(v) => provider_from(provider@) matches Some(p) && str_views(v.0@) == environment_spec(p).0
                && str_views(v.1@) == environment_spec(p).1,
            Err(e) => provider_from(provider@).is_none() && e@ == "Unsupported API provider: "@ + provider@,
        },
{
    match parse_provider(provider) {
        Some(p) => Ok(p.environment_variables()),
        None => Err(concat("Unsupported API provider: ", provider)),
    }
}

/// A secret as it is stored: trimmed, 1 to 4096 bytes.
pub open spec fn token_ok(value: Seq<char>) -> bool {
    trim(value).len() > 0 && vstd::utf8::encode_utf8(trim(value)).len() <= 4096
}

/// Trims a secret and checks its length; `message` is the error when it is
/// empty or longer than 4096 bytes.
fn checked_token(value: &str, message: &str) -> (r: Result<String, String>)
    ensures
        match r {
            Ok(t) => token_ok(value@) && t@ == trim(value@),
            Err(e) => !token_ok(value@) && e@ == message@,
        },
{
    let t = trim_str(value);
    if crate::text::char_count(t.as_str()) == 0 || utf8_len(t.as_str()) > 4096 {
        return Err(message.to_owned());
    }
    Ok(t)
}

/// Whether `key` has an entry among `s`.
pub open spec fn has_target(s: Seq<(Seq<char>, Seq<char>)>, key: Seq<char>) -> bool {
    exists|i: int| 0 <= i < s.len() && #[trigger] s[i].0 == key
}

/// The map from target to secret that a list of distinct entries denotes.
pub open spec fn entries_map(s: Seq<(Seq<char>, Seq<char>)>) -> Map<Seq<char>, Seq<char>> {
    Map::new(
        |k: Seq<char>| has_target(s, k),
        |k: Seq<char>| s[choose|i: int| 0 <= i < s.len() && #[trigger] s[i].0 == k].1,
    )
}

/// Targets are distinct.
pub open spec fn distinct_targets(s: Seq<(Seq<char>, Seq<char>)>) -> bool {
    forall|i: int, j: int| 0 <= i < s.len() && 0 <= j < s.len() && i != j ==> #[trigger] s[i].0 != #[trigger] s[j].0
}

proof fn lemma_entry_value(s: Seq<(Seq<char>, Seq<char>)>, i: int)
    requires
        distinct_targets(s),
        0 <= i < s.len(),
    ensures
        entries_map(s).contains_key(s[i].0),
        entries_map(s)[s[i].0] == s[i].1,
{
    let k = s[i].0;
    assert(has_target(s, k));
    let c = choose|j: int| 0 <= j < s.len() && #[trigger] s[j].0 == k;
    assert(0 <= c < s.len() && s[c].0 == k);
    if c != i {
        assert(s[c].0 != s[i].0);
    }
}

/// The stored secrets, by target name.
#[derive(Debug)]
pub struct CredentialStore {
    entries: Vec<(String, String)>,
}

impl CredentialStore {
    pub closed spec fn pairs(&self) -> Seq<(Seq<char>, Seq<char>)> {
        self.entries@.map_values(|e: (String, String)| (e.0@, e.1@))
    }

    #[verifier::type_invariant]
    closed spec fn distinct(&self) -> bool {
        distinct_targets(self.pairs())
    }

    /// The secrets, by target.
    pub closed spec fn secrets(&self) -> Map<Seq<char>, Seq<char>> {
        entries_map(self.pairs())
    }

    /// An empty store.
    pub fn new() -> (r: Self)
        ensures
            r.secrets() == Map::<Seq<char>, Seq<char>>::empty(),
    {
        let r = CredentialStore { entries: Vec::new() };
        assert(r.secrets() =~= Map::<Seq<char>, Seq<char>>::empty());
        r
    }

    fn position(&self, target: &str) -> (r: Option<usize>)
        ensures
            match r {
                Some(i) => i < self.pairs().len() && self.pairs()[i as int].0 == target@,
                None => !has_target(self.pairs(), target@),
            },
    {
        let mut i: usize = 0;
        while i < self.entries.len()
            invariant
                i <= self.entries.len(),
                forall|j: int| 0 <= j < i ==> #[trigger] self.pairs()[j].0 != target@,
            decreases self.entries.len() - i,
        {
            if str_eq(self.entries[i].0.as_str(), target) {
                return Some(i);
            }
            i = i + 1;
        }
        None
    }

    /// The secret stored under `target`.
    pub fn read(&self, target: &str) -> (r: Option<String>)
        ensures
            match r {
                Some(v) => self.secrets().contains_key(target@) && self.secrets()[target@] == v@,
                None => !self.secrets().contains_key(target@),
            },
    {
        proof {
            use_type_invariant(self);
        }
        match self.position(target) {
            Some(i) => {
                proof {
                    lemma_entry_value(self.pairs(), i as int);
                }
                Some(self.entries[i].1.clone())
            },
            None => None,
        }
    }

    /// Stores `value` under `target`, replacing what was there.
    pub fn write(&mut self, target: &str, value: &str)
        ensures
            final(self).secrets() == old(self).secrets().insert(target@, value@),
    {
        proof {
            use_type_invariant(&*self);
        }
        let ghost before = self.pairs();
        let pos = self.position(target);
        let mut entries: Vec<(String, String)> = Vec::new();
                std::mem::swap(&mut entries, &mut self.entries);
        assert(entries@.map_values(|e: (String, String)| (e.0@, e.1@)) == before);
        match pos {
            Some(i) => {
                entries.set(i, (target.to_owned(), value.to_owned()));
            },
            None => {
                entries.push((target.to_owned(), value.to_owned()));
            },
        }
        let ghost after = entries@.map_values(|e: (String, String)| (e.0@, e.1@));
        proof {
            let idx: int = match pos {
                Some(i) => i as int,
                None => before.len() as int,
            };
            match pos {
                Some(i) => {
                    assert(after =~= before.update(i as int, (target@, value@)));
                },
                None => {
                    assert(after =~= before.push((target@, value@)));
                },
            }
            assert(distinct_targets(after));
            lemma_entry_value(after, idx);
            assert forall|k: Seq<char>| k != target@ implies (has_target(after, k) == has_target(before, k)) by {
                if has_target(before, k) {
                    let j = choose|j: int| 0 <= j < before.len() && #[trigger] before[j].0 == k;
                    assert(after[j].0 == k);
                }
                if has_target(after, k) {
                    let j = choose|j: int| 0 <= j < after.len() && #[trigger] after[j].0 == k;
                    assert(j != idx);
                    assert(before[j].0 == k);
                }
            }
            assert forall|k: Seq<char>| k != target@ && has_target(before, k) implies #[trigger] entries_map(after)[k]
                == entries_map(before)[k] by {
                let j = choose|j: int| 0 <= j < before.len() && #[trigger] before[j].0 == k;
                lemma_entry_value(before, j);
                assert(after[j] == before[j]);
                lemma_entry_value(after, j);
            }
            assert(entries_map(after) =~= entries_map(before).insert(target@, value@));
        }
        self.entries = entries;
    }

    /// Removes the secret stored under `target`; reports whether there was one.
    pub fn delete(&mut self, target: &str) -> (r: bool)
        ensures
            r == old(self).secrets().contains_key(target@),
            final(self).secrets() == old(self).secrets().remove(target@),
    {
        proof {
            use_type_invariant(&*self);
        }
        let ghost before = self.pairs();
        let pos = self.position(target);
        match pos {
            None => {
                assert(entries_map(before) =~= entries_map(before).remove(target@));
                false
            },
            Some(i) => {
                let mut entries: Vec<(String, String)> = Vec::new();
                std::mem::swap(&mut entries, &mut self.entries);
                assert(entries@.map_values(|e: (String, String)| (e.0@, e.1@)) == before);
                entries.remove(i);
                let ghost after = entries@.map_values(|e: (String, String)| (e.0@, e.1@));
                proof {
                    assert(after =~= before.remove(i as int));
                    assert(distinct_targets(after));
                    assert(!has_target(after, target@)) by {
                        if has_target(after, target@) {
                            let j = choose|j: int| 0 <= j < after.len() && #[trigger] after[j].0 == target@;
                            if j < i {
                                assert(before[j].0 == target@);
                            } else {
                                assert(before[j + 1].0 == target@);
                            }
                        }
                    }
                    assert forall|k: Seq<char>| k != target@ implies (has_target(after, k) == has_target(before, k)) by {
                        if has_target(before, k) {
                            let j = choose|j: int| 0 <= j < before.len() && #[trigger] before[j].0 == k;
                            assert(j != i);
                            if j < i {
                                assert(after[j].0 == k);
                            } else {
                                assert(after[j - 1].0 == k);
                            }
                        }
                        if has_target(after, k) {
                            let j = choose|j: int| 0 <= j < after.len() && #[trigger] after[j].0 == k;
                            if j < i {
                                assert(before[j].0 == k);
                            } else {
                                assert(before[j + 1].0 == k);
                            }
                        }
                    }
                    assert forall|k: Seq<char>| k != target@ && has_target(before, k) implies #[trigger] entries_map(after)[k]
                        == entries_map(before)[k] by {
                        let j = choose|j: int| 0 <= j < before.len() && #[trigger] before[j].0 == k;
                        lemma_entry_value(before, j);
                        if j < i {
                            assert(after[j] == before[j]);
                            lemma_entry_value(after, j);
                        } else {
                            assert(after[j - 1] == before[j]);
                            lemma_entry_value(after, j - 1);
                        }
                    }
                    lemma_entry_value(before, i as int);
                    assert(entries_map(after) =~= entries_map(before).remove(target@));
                }
                self.entries = entries;
                true
            },
        }
    }
}

/// `(target, secret)` pairs as texts.
pub open spec fn pair_views(s: Seq<(String, String)>) -> Seq<(Seq<char>, Seq<char>)> {
    s.map_values(|e: (String, String)| (e.0@, e.1@))
}

/// The secrets that storing each pair in turn leaves: a later pair for a
/// target replaces an earlier one.
pub open spec fn inserted(s: Seq<(Seq<char>, Seq<char>)>) -> Map<Seq<char>, Seq<char>>
    decreases s.len(),
{
    if s.len() == 0 {
        Map::empty()
    } else {
        inserted(s.drop_last()).insert(s.last().0, s.last().1)
    }
}

proof fn lemma_inserted_distinct(s: Seq<(Seq<char>, Seq<char>)>)
    requires
        distinct_targets(s),
    ensures
        inserted(s) == entries_map(s),
    decreases s.len(),
{
    if s.len() == 0 {
        assert(entries_map(s) =~= Map::<Seq<char>, Seq<char>>::empty());
    } else {
        let d = s.drop_last();
        let n = s.len() - 1;
        assert(distinct_targets(d)) by {
            assert forall|i: int, j: int| 0 <= i < d.len() && 0 <= j < d.len() && i != j implies #[trigger] d[i].0
                != #[trigger] d[j].0 by {
                assert(d[i] == s[i] && d[j] == s[j]);
            }
        }
        lemma_inserted_distinct(d);
        lemma_entry_value(s, n);
        assert forall|k: Seq<char>| #[trigger] inserted(s).contains_key(k) == entries_map(s).contains_key(k) by {
            if has_target(d, k) {
                let j = choose|j: int| 0 <= j < d.len() && #[trigger] d[j].0 == k;
                assert(s[j].0 == k);
            }
            if has_target(s, k) && k != s[n].0 {
                let j = choose|j: int| 0 <= j < s.len() && #[trigger] s[j].0 == k;
                assert(j < n);
                assert(d[j].0 == k);
            }
        }
        assert forall|k: Seq<char>| #[trigger] inserted(s).contains_key(k) implies inserted(s)[k] == entries_map(s)[k] by {
            if k != s[n].0 {
                let j = choose|j: int| 0 <= j < d.len() && #[trigger] d[j].0 == k;
                assert(d[j] == s[j]);
                lemma_entry_value(d, j);
                lemma_entry_value(s, j);
            }
        }
        assert(inserted(s) =~= entries_map(s));
    }
}

impl CredentialStore {
    /// The stored `(target, secret)` pairs, one per target: storing them in
    /// turn into an empty store gives back these secrets.
    pub fn entries(&self) -> (r: Vec<(String, String)>)
        ensures
            distinct_targets(pair_views(r@)),
            inserted(pair_views(r@)) == self.secrets(),
    {
        proof {
            use_type_invariant(self);
        }
        let mut out: Vec<(String, String)> = Vec::new();
        let mut i: usize = 0;
        while i < self.entries.len()
            invariant
                i <= self.entries.len(),
                pair_views(out@) == self.pairs().take(i as int),
            decreases self.entries.len() - i,
        {
            let e = &self.entries[i];
            let target = e.0.clone();
            let secret = e.1.clone();
            let ghost before = out@;
            out.push((target, secret));
            proof {
                assert(self.pairs()[i as int] == (self.entries@[i as int].0@, self.entries@[i as int].1@));
                assert(out@ == before.push((target, secret)));
                assert(pair_views(out@) =~= pair_views(before).push((target@, secret@)));
                assert(pair_views(out@) =~= self.pairs().take(i + 1));
            }
            i = i + 1;
        }
        proof {
            assert(self.pairs().take(self.entries@.len() as int) =~= self.pairs());
            lemma_inserted_distinct(self.pairs());
        }
        out
    }

    /// Builds a store from `(target, secret)` pairs; a later pair for the same
    /// target replaces an earlier one.
    pub fn from_entries(pairs: &Vec<(String, String)>) -> (r: Self)
        ensures
            r.secrets() == inserted(pair_views(pairs@)),
    {
        let mut store = CredentialStore::new();
        let mut i: usize = 0;
        while i < pairs.len()
            invariant
                i <= pairs@.len(),
                store.secrets() == inserted(pair_views(pairs@).take(i as int)),
            decreases pairs@.len() - i,
        {
            store.write(pairs[i].0.as_str(), pairs[i].1.as_str());
            proof {
                assert(pair_views(pairs@).take(i + 1).drop_last() =~= pair_views(pairs@).take(i as int));
            }
            i = i + 1;
        }
        proof {
            assert(pair_views(pairs@).take(pairs@.len() as int) =~= pair_views(pairs@));
        }
        store
    }
}

/// The secret stored under `k`, if any.
pub open spec fn stored(m: Map<Seq<char>, Seq<char>>, k: Seq<char>) -> Option<Seq<char>> {
    if m.contains_key(k) {
        Some(m[k])
    } else {
        None
    }
}

/// The secret stored for a profile: under its target, else under the target
/// legacy installs used, else under its migrated single-key target.
pub open spec fn profile_stored(m: Map<Seq<char>, Seq<char>>, profile_id: Seq<char>, provider: Seq<char>) -> Option<Seq<char>> {
    if stored(m, target_spec(profile_id)).is_some() {
        stored(m, target_spec(profile_id))
    } else if stored(m, old_profile_target_spec(profile_id)).is_some() {
        stored(m, old_profile_target_spec(profile_id))
    } else {
        match legacy_target_spec(profile_id, provider) {
            Some(t) => stored(m, t),
            None => None,
        }
    }
}

/// The store once every target of a profile's key has been removed.
pub open spec fn without_profile(m: Map<Seq<char>, Seq<char>>, profile_id: Seq<char>, provider: Seq<char>) -> Map<Seq<char>, Seq<char>> {
    let m1 = m.remove(target_spec(profile_id)).remove(old_profile_target_spec(profile_id));
    match legacy_target_spec(profile_id, provider) {
        Some(t) => m1.remove(t),
        None => m1,
    }
}

/// The first variable value that is not blank, in the order given.
pub open spec fn first_set(values: Seq<Option<Seq<char>>>) -> Option<Seq<char>>
    decreases values.len(),
{
    if values.len() == 0 {
        None
    } else {
        match values[0] {
            Some(v) if trim(v).len() > 0 => Some(v),
            _ => first_set(values.drop_first()),
        }
    }
}

/// The views of optional strings.
pub open spec fn opt_views(values: Seq<Option<String>>) -> Seq<Option<Seq<char>>> {
    values.map_values(|o: Option<String>| match o {
        Some(s) => Some(s@),
        None => None,
    })
}

/// The first value that is not blank among environment variable values.
pub fn first_set_value(values: &Vec<Option<String>>) -> (r: Option<String>)
    ensures
        match r {
            Some(v) => first_set(opt_views(values@)) == Some(v@),
            None => first_set(opt_views(values@)).is_none(),
        },
{
    let ghost all = opt_views(values@);
    assert(all.subrange(0, all.len() as int) =~= all);
    let mut i: usize = 0;
    while i < values.len()
        invariant
            i <= values@.len(),
            all == opt_views(values@),
            first_set(all) == first_set(all.subrange(i as int, all.len() as int)),
        decreases values@.len() - i,
    {
        let ghost rest = all.subrange(i as int, all.len() as int);
        assert(rest.drop_first() =~= all.subrange(i + 1, all.len() as int));
        match &values[i] {
            Some(v) => {
                if !crate::text::is_blank(v.as_str()) {
                    return Some(v.clone());
                }
            },
            None => {},
        }
        i = i + 1;
    }
    assert(all.subrange(i as int, all.len() as int).len() == 0);
    None
}

fn read_target(store: &CredentialStore, target: &str) -> (r: Option<String>)
    ensures
        match r {
            Some(v) => stored(store.secrets(), target@) == Some(v@),
            None => stored(store.secrets(), target@).is_none(),
        },
{
    store.read(target)
}

/// The key stored for a profile: under its target, the earlier target, or its
/// migrated single-key target, in that order.
pub fn read_profile_stored(store: &CredentialStore, profile_id: &str, provider: &str) -> (r: Option<String>)
    ensures
        match r {
            Some(v) => profile_stored(store.secrets(), profile_id@, provider@) == Some(v@),
            None => profile_stored(store.secrets(), profile_id@, provider@).is_none(),
        },
{
    if let Some(v) = read_target(store, target(profile_id).as_str()) {
        return Some(v);
    }
    if let Some(v) = read_target(store, old_profile_target(profile_id).as_str()) {
        return Some(v);
    }
    match legacy_target(profile_id, provider) {
        Some(t) => read_target(store, t.as_str()),
        None => None,
    }
}

/// The key stored for a profile of a supported provider.
pub fn read_stored_credential(store: &CredentialStore, profile_id: &str, provider: &str) -> (r: Result<Option<String>, String>)
    ensures
        match r {
            Ok(Some(v)) => provider_from(provider@).is_some() && profile_stored(store.secrets(), profile_id@, provider@) == Some(v@),
            Ok(None) => provider_from(provider@).is_some() && profile_stored(store.secrets(), profile_id@, provider@).is_none(),
            Err(e) => provider_from(provider@).is_none() && e@ == "Unsupported API provider: "@ + provider@,
        },
{
    environment_variables(provider)?;
    Ok(read_profile_stored(store, profile_id, provider))
}

/// The key for a profile: the first non-blank value among the provider's
/// environment variables (`environment` holds their values, primary names
/// first), else the stored key.
pub fn read_credential(
    store: &CredentialStore,
    profile_id: &str,
    provider: &str,
    environment: &Vec<Option<String>>,
) -> (r: Result<Option<String>, String>)
    ensures
        match r {
            Ok(o) => provider_from(provider@).is_some() && opt_text(o) == (if first_set(opt_views(environment@)).is_some() {
                first_set(opt_views(environment@))
            } else {
                profile_stored(store.secrets(), profile_id@, provider@)
            }),
            Err(e) => provider_from(provider@).is_none() && e@ == "Unsupported API provider: "@ + provider@,
        },
{
    environment_variables(provider)?;
    match first_set_value(environment) {
        Some(v) => Ok(Some(v)),
        None => Ok(read_profile_stored(store, profile_id, provider)),
    }
}

/// The text an optional string holds.
pub open spec fn opt_text(o: Option<String>) -> Option<Seq<char>> {
    match o {
        Some(s) => Some(s@),
        None => None,
    }
}

/// The status of a profile's key, given the values of the provider's
/// environment variables.
pub fn credential_status(
    store: &CredentialStore,
    profile_id: &str,
    provider: &str,
    environment: &Vec<Option<String>>,
) -> (r: Result<CredentialStatus, String>)
    ensures
        match r {
            Ok(s) => provider_from(provider@).is_some() && s.view_tuple() == status_spec(
                first_set(opt_views(environment@)).is_some(),
                profile_stored(store.secrets(), profile_id@, provider@).is_some(),
            ),
            Err(e) => provider_from(provider@).is_none() && e@ == "Unsupported API provider: "@ + provider@,
        },
{
    environment_variables(provider)?;
    let environment_override = first_set_value(environment).is_some();
    let stored_configured = read_profile_stored(store, profile_id, provider).is_some();
    Ok(CredentialStatus::from_sources(environment_override, stored_configured))
}

/// Stores a profile's API key under the profile's target, trimmed.
pub fn write_credential(store: &mut CredentialStore, profile_id: &str, provider: &str, value: &str) -> (r: Result<(), String>)
    ensures
        match r {
            Ok(()) => provider_from(provider@).is_some() && token_ok(value@) && final(store).secrets()
                == old(store).secrets().insert(target_spec(profile_id@), trim(value@)),
            Err(e) => final(store).secrets() == old(store).secrets() && if provider_from(provider@).is_none() {
                e@ == "Unsupported API provider: "@ + provider@
            } else {
                !token_ok(value@) && e@ == "API key length is invalid"@
            },
        },
{
    environment_variables(provider)?;
    let t = checked_token(value, "API key length is invalid")?;
    store.write(target(profile_id).as_str(), t.as_str());
    Ok(())
}

/// Removes a profile's API key from every target it may be stored under.
pub fn delete_credential(store: &mut CredentialStore, profile_id: &str, provider: &str) -> (r: Result<(), String>)
    ensures
        match r {
            Ok(()) => provider_from(provider@).is_some() && final(store).secrets() == without_profile(
                old(store).secrets(),
                profile_id@,
                provider@,
            ),
            Err(e) => provider_from(provider@).is_none() && final(store).secrets() == old(store).secrets()
                && e@ == "Unsupported API provider: "@ + provider@,
        },
{
    environment_variables(provider)?;
    store.delete(target(profile_id).as_str());
    store.delete(old_profile_target(profile_id).as_str());
    if let Some(t) = legacy_target(profile_id, provider) {
        store.delete(t.as_str());
    }
    Ok(())
}

/// The status of an integration token, given the value of its environment variable.
pub fn token_status(store: &CredentialStore, target: &str, environment: &Option<String>) -> (r: CredentialStatus)
    ensures
        r.view_tuple() == status_spec(
            first_set(seq![opt_text(*environment)]).is_some(),
            stored(store.secrets(), target@).is_some(),
        ),
{
    let values = vec![environment.clone()];
    proof {
        assert(opt_views(values@) =~= seq![opt_text(*environment)]);
    }
    let environment_override = first_set_value(&values).is_some();
    CredentialStatus::from_sources(environment_override, store.read(target).is_some())
}

/// An integration token: its environment variable when set, else the stored token.
pub fn read_token(store: &CredentialStore, target: &str, environment: &Option<String>) -> (r: Option<String>)
    ensures
        opt_text(r) == (if first_set(seq![opt_text(*environment)]).is_some() {
            first_set(seq![opt_text(*environment)])
        } else {
            stored(store.secrets(), target@)
        }),
{
    let values = vec![environment.clone()];
    proof {
        assert(opt_views(values@) =~= seq![opt_text(*environment)]);
    }
    match first_set_value(&values) {
        Some(v) => Some(v),
        None => read_target(store, target),
    }
}

/// Stores the external API token, trimmed.
pub fn write_external_api_token(store: &mut CredentialStore, value: &str) -> (r: Result<(), String>)
    ensures
        match r {
            Ok(()) => token_ok(value@) && final(store).secrets() == old(store).secrets().insert(EXTERNAL_API_TARGET@, trim(value@)),
            Err(e) => !token_ok(value@) && final(store).secrets() == old(store).secrets() && e@ == "External API token length is invalid"@,
        },
{
    let t = checked_token(value, "External API token length is invalid")?;
    store.write(EXTERNAL_API_TARGET, t.as_str());
    Ok(())
}

/// Removes the stored external API token; removing an absent token succeeds.
pub fn delete_external_api_token(store: &mut CredentialStore) -> (r: Result<(), String>)
    ensures
        r is Ok,
        final(store).secrets() == old(store).secrets().remove(EXTERNAL_API_TARGET@),
{
    store.delete(EXTERNAL_API_TARGET);
    Ok(())
}

/// Stores the VRCX-0 integration token, trimmed.
pub fn write_vrcx_token(store: &mut CredentialStore, value: &str) -> (r: Result<(), String>)
    ensures
        match r {
            Ok(()) => token_ok(value@) && final(store).secrets() == old(store).secrets().insert(VRCX_TARGET@, trim(value@)),
            Err(e) => !token_ok(value@) && final(store).secrets() == old(store).secrets() && e@ == "VRCX-0 token length is invalid"@,
        },
{
    let t = checked_token(value, "VRCX-0 token length is invalid")?;
    store.write(VRCX_TARGET, t.as_str());
    Ok(())
}

/// Removes the stored VRCX-0 integration token; removing an absent token succeeds.
pub fn delete_vrcx_token(store: &mut CredentialStore) -> (r: Result<(), String>)
    ensures
        r is Ok,
        final(store).secrets() == old(store).secrets().remove(VRCX_TARGET@),
{
    store.delete(VRCX_TARGET);
    Ok(())
}

/// `Path::join` of a relative path onto `base`: a separator is added unless
/// `base` is empty or already ends in one.
pub open spec fn path_join(base: Seq<char>, relative: Seq<char>) -> Seq<char> {
    if base.len() == 0 {
        relative
    } else if base.last() == '/' {
        base + relative
    } else {
        base + "/"@ + relative
    }
}

/// An absolute path: one that starts at the root.
pub open spec fn is_absolute(p: Seq<char>) -> bool {
    p.len() > 0 && p[0] == '/'
}

pub(crate) fn join_path(base: &str, relative: &str) -> (r: String)
    ensures
        r@ == path_join(base@, relative@),
{
    let cs = crate::text::chars_of(base);
    if cs.len() == 0 {
        relative.to_owned()
    } else if cs[cs.len() - 1] == '/' {
        concat(base, relative)
    } else {
        crate::text::concat3(base, "/", relative)
    }
}

/// The data directory: `XDG_DATA_HOME` when it is an absolute path (a relative
/// one is ignored), else `.local/share` under `HOME`.
pub open spec fn data_home_spec(xdg_data_home: Option<Seq<char>>, home: Option<Seq<char>>) -> Result<Seq<char>, Seq<char>> {
    match xdg_data_home {
        Some(p) if is_absolute(p) => Ok(p),
        _ => match home {
            Some(h) => Ok(path_join(h, ".local/share"@)),
            None => Err("Cannot locate the credential store: neither XDG_DATA_HOME nor HOME is set"@),
        },
    }
}

/// The data directory from the values of `XDG_DATA_HOME` and `HOME`.
pub fn data_home_from(xdg_data_home: Option<String>, home: Option<String>) -> (r: Result<String, String>)
    ensures
        match r {
            Ok(p) => data_home_spec(opt_text(xdg_data_home), opt_text(home)) == Ok::<Seq<char>, Seq<char>>(p@),
            Err(e) => data_home_spec(opt_text(xdg_data_home), opt_text(home)) == Err::<Seq<char>, Seq<char>>(e@),
        },
{
    if let Some(p) = &xdg_data_home {
        let cs = crate::text::chars_of(p.as_str());
        if cs.len() > 0 && cs[0] == '/' {
            return Ok(p.clone());
        }
    }
    match &home {
        Some(h) => Ok(join_path(h.as_str(), ".local/share")),
        None => Err("Cannot locate the credential store: neither XDG_DATA_HOME nor HOME is set".to_owned()),
    }
}

/// The credential file inside a data directory.
pub fn store_path_in(data_home: &str) -> (r: String)
    ensures
        r@ == path_join(data_home@, CREDENTIALS_FILE@),
{
    join_path(data_home, CREDENTIALS_FILE)
}

/// A key written for a profile is the key read back for it.
pub proof fn lemma_profile_key_round_trip(
    m: Map<Seq<char>, Seq<char>>,
    profile_id: Seq<char>,
    provider: Seq<char>,
    key: Seq<char>,
)
    ensures
        profile_stored(m.insert(target_spec(profile_id), key), profile_id, provider) == Some(key),
{
}

/// Once a profile's key is deleted, no key is read back for it.
pub proof fn lemma_deleted_profile_key_is_gone(
    m: Map<Seq<char>, Seq<char>>,
    profile_id: Seq<char>,
    provider: Seq<char>,
)
    ensures
        profile_stored(without_profile(m, profile_id, provider), profile_id, provider).is_none(),
{
}

/// Deleting a profile's key a second time changes nothing.
pub proof fn lemma_profile_delete_idempotent(
    m: Map<Seq<char>, Seq<char>>,
    profile_id: Seq<char>,
    provider: Seq<char>,
)
    ensures
        without_profile(without_profile(m, profile_id, provider), profile_id, provider) == without_profile(
            m,
            profile_id,
            provider,
        ),
{
    let once = without_profile(m, profile_id, provider);
    assert(without_profile(once, profile_id, provider) =~= once);
}

/// The two integration tokens and every profile key live under distinct targets.
pub proof fn lemma_targets_are_independent(profile_id: Seq<char>)
    ensures
        EXTERNAL_API_TARGET@ != VRCX_TARGET@,
        target_spec(profile_id) != EXTERNAL_API_TARGET@,
        target_spec(profile_id) != VRCX_TARGET@,
        old_profile_target_spec(profile_id) != EXTERNAL_API_TARGET@,
        old_profile_target_spec(profile_id) != VRCX_TARGET@,
{
    reveal_strlit("VRCS/ExternalAPI/token");
    reveal_strlit("VRCS/VRCXIntegration/token");
    reveal_strlit("VRCS/API/profile/");
    reveal_strlit("VRCS/ASR/profile/");
    assert(EXTERNAL_API_TARGET@[5] != VRCX_TARGET@[5]);
    assert(target_spec(profile_id)[5] != EXTERNAL_API_TARGET@[5]);
    assert(target_spec(profile_id)[5] != VRCX_TARGET@[5]);
    assert(old_profile_target_spec(profile_id)[5] != EXTERNAL_API_TARGET@[5]);
    assert(old_profile_target_spec(profile_id)[5] != VRCX_TARGET@[5]);
}

/// Writing one integration token leaves the other one as it was.
pub proof fn lemma_token_writes_are_independent(m: Map<Seq<char>, Seq<char>>, token: Seq<char>)
    ensures
        stored(m.insert(EXTERNAL_API_TARGET@, token), VRCX_TARGET@) == stored(m, VRCX_TARGET@),
        stored(m.insert(VRCX_TARGET@, token), EXTERNAL_API_TARGET@) == stored(m, EXTERNAL_API_TARGET@),
{
    lemma_targets_are_independent(Seq::empty());
}


/// A key saved by the older layout, under `VRCS/ASR/profile/<id>`, is read
/// for the profile when nothing is stored under `VRCS/API/profile/<id>`; a
/// key under the newer target always wins.
pub proof fn lemma_older_profile_key_is_read(m: Map<Seq<char>, Seq<char>>, profile_id: Seq<char>, provider: Seq<char>)
    ensures
        m.contains_key("VRCS/API/profile/"@ + profile_id) ==> profile_stored(m, profile_id, provider) == Some(
            m["VRCS/API/profile/"@ + profile_id],
        ),
        !m.contains_key("VRCS/API/profile/"@ + profile_id) && m.contains_key("VRCS/ASR/profile/"@ + profile_id)
            ==> profile_stored(m, profile_id, provider) == Some(m["VRCS/ASR/profile/"@ + profile_id]),
{
}

} // verus!
