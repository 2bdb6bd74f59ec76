//! Agent profiles under their ids: validated and normalized before they are stored, listed
//! newest first.
use vstd::prelude::*;

use crate::models::agent_profile::{AgentProfile, ProfileView};
use crate::order::{lex_le, lex_le_exec, lemma_lex_total, lemma_lex_transitive, lemma_lex_antisymmetric};
use crate::repositories::common::{trimmed_string, normalize_optional_string, or_fallback, normalize_list, normalized_list, copy_strings, not_found_message, not_found_text};
use crate::store::keyed::{Duplicate, KeyedStore, map_of, entry_views, seq_views, values_of};
use crate::store::ranked::{Ranked, sort_ranked, is_ranked_permutation};
use crate::store::stamp::{now_millis, short_id, is_short_id};
use crate::text::{trim, trimmed, chars_of, push_str, string_of};
use crate::unicode::{unicode_lower_str, str_to_lowercase};

verus! {

impl Duplicate for AgentProfile {
    fn duplicate(&self) -> (r: AgentProfile) {
        AgentProfile {
            id: self.id.clone(),
            name: self.name.clone(),
            description: self.description.clone(),
            provider_id: self.provider_id.clone(),
            model_id: self.model_id.clone(),
            temperature: self.temperature.clone(),
            max_tokens: self.max_tokens.clone(),
            system_prompt: self.system_prompt.clone(),
            work_directory: self.work_directory.clone(),
            enabled_mcp_service_ids: copy_strings(&self.enabled_mcp_service_ids),
            enabled_tool_keys: copy_strings(&self.enabled_tool_keys),
            created_at: self.created_at,
            updated_at: self.updated_at,
        }
    }
}

/// `a` comes strictly before `b` in `String`'s order.
pub open spec fn lex_lt(a: Seq<char>, b: Seq<char>) -> bool {
    lex_le(a, b) && a != b
}

/// `(a1, a2)` is at most `(b1, b2)` when the first parts are ordered by `String`'s order
/// and ties go to the second.
pub open spec fn pair_le(a1: Seq<char>, a2: Seq<char>, b1: Seq<char>, b2: Seq<char>) -> bool {
    lex_lt(a1, b1) || (a1 == b1 && lex_le(a2, b2))
}

pub proof fn lemma_pair_total(a1: Seq<char>, a2: Seq<char>, b1: Seq<char>, b2: Seq<char>)
    ensures
        pair_le(a1, a2, b1, b2) || pair_le(b1, b2, a1, a2),
{
    lemma_lex_total(a1, b1);
    lemma_lex_total(a2, b2);
}

pub proof fn lemma_pair_transitive(
    a1: Seq<char>,
    a2: Seq<char>,
    b1: Seq<char>,
    b2: Seq<char>,
    c1: Seq<char>,
    c2: Seq<char>,
)
    requires
        pair_le(a1, a2, b1, b2),
        pair_le(b1, b2, c1, c2),
    ensures
        pair_le(a1, a2, c1, c2),
{
    if lex_lt(a1, b1) && lex_lt(b1, c1) {
        lemma_lex_transitive(a1, b1, c1);
        if a1 == c1 {
            lemma_lex_antisymmetric(a1, b1);
        }
    } else if a1 == b1 && b1 == c1 {
        lemma_lex_transitive(a2, b2, c2);
    }
}

/// Compares two strings by `String`'s order, strictly.
pub fn lex_lt_exec(a: &[char], b: &[char]) -> (r: bool)
    ensures
        r == lex_lt(a@, b@),
{
    lex_le_exec(a, b) && !crate::text::seq_eq(a, b)
}

pub fn pair_le_exec(a1: &[char], a2: &[char], b1: &[char], b2: &[char]) -> (r: bool)
    ensures
        r == pair_le(a1@, a2@, b1@, b2@),
{
    lex_lt_exec(a1, b1) || (crate::text::seq_eq(a1, b1) && lex_le_exec(a2, b2))
}

/// Profiles are listed newest `updated_at` first, then by lower-cased name, then by id.
impl Ranked for AgentProfile {
    open spec fn rank_le(a: ProfileView, b: ProfileView) -> bool {
        a.updated_at > b.updated_at || (a.updated_at == b.updated_at && pair_le(
            unicode_lower_str(a.name),
            a.id,
            unicode_lower_str(b.name),
            b.id,
        ))
    }

    proof fn lemma_rank_total(a: ProfileView, b: ProfileView) {
        lemma_pair_total(unicode_lower_str(a.name), a.id, unicode_lower_str(b.name), b.id);
    }

    proof fn lemma_rank_transitive(a: ProfileView, b: ProfileView, c: ProfileView) {
        if a.updated_at == b.updated_at && b.updated_at == c.updated_at {
            lemma_pair_transitive(
                unicode_lower_str(a.name),
                a.id,
                unicode_lower_str(b.name),
                b.id,
                unicode_lower_str(c.name),
                c.id,
            );
        }
    }

    fn rank_le_exec(&self, other: &AgentProfile) -> (r: bool) {
        if self.updated_at != other.updated_at {
            return self.updated_at > other.updated_at;
        }
        let a = str_to_lowercase(self.name.as_str());
        let b = str_to_lowercase(other.name.as_str());
        pair_le_exec(
            chars_of(a.as_str()).as_slice(),
            chars_of(self.id.as_str()).as_slice(),
            chars_of(b.as_str()).as_slice(),
            chars_of(other.id.as_str()).as_slice(),
        )
    }
}

/// The profile as stored: fields trimmed, blank temperature and token limit given their
/// defaults, blank list items dropped, a fresh `agent_` id when none is given, the creation
/// time kept from the stored profile, and missing times set to `now`. `fresh_id` is the
/// random part of a new id.
pub open spec fn normalized_profile(
    p: ProfileView,
    existing: Option<ProfileView>,
    now: i64,
    fresh_id: Seq<char>,
) -> Result<ProfileView, Seq<char>> {
    if trim(p.name).len() == 0 {
        Err("Agent 名称不能为空"@)
    } else if trim(p.provider_id).len() == 0 {
        Err("provider_id 不能为空"@)
    } else if trim(p.model_id).len() == 0 {
        Err("model_id 不能为空"@)
    } else if trim(p.system_prompt).len() == 0 {
        Err("system_prompt 不能为空"@)
    } else {
        Ok(ProfileView {
            id: if trim(p.id).len() == 0 { "agent_"@ + fresh_id } else { trim(p.id) },
            name: trim(p.name),
            description: trim(p.description),
            provider_id: trim(p.provider_id),
            model_id: trim(p.model_id),
            temperature: or_fallback(p.temperature, "0.7"@),
            max_tokens: or_fallback(p.max_tokens, "4096"@),
            system_prompt: trim(p.system_prompt),
            work_directory: trim(p.work_directory),
            enabled_mcp_service_ids: normalized_list(p.enabled_mcp_service_ids),
            enabled_tool_keys: normalized_list(p.enabled_tool_keys),
            created_at: match existing {
                Some(e) => e.created_at,
                None => if p.created_at > 0 { p.created_at } else { now },
            },
            updated_at: if p.updated_at > 0 { p.updated_at } else { now },
        })
    }
}

/// A fresh id, `prefix` and a short id, has nothing to trim.
pub proof fn lemma_fresh_id_trimmed(prefix: Seq<char>, fresh_id: Seq<char>)
    requires
        prefix.len() > 0,
        !crate::text::is_ws(prefix[0]),
        is_short_id(fresh_id),
    ensures
        trim(prefix + fresh_id) == prefix + fresh_id,
{
    let t = prefix + fresh_id;
    assert(t[0] == prefix[0]);
    assert(t.last() == fresh_id[9]);
    assert(crate::store::stamp::is_id_char(fresh_id[9]));
    crate::text::lemma_trim_start_skip(t, 0);
    assert(t.skip(0) =~= t);
    crate::text::lemma_trim_end_take(t, t.len() as int);
    assert(t.take(t.len() as int) =~= t);
}

/// Storing a profile that was just stored, under its own id, changes nothing: the
/// normalized profile is a fixed point of normalization, whatever the time and the fresh
/// id then. This holds once the profile has an update time after the epoch.
pub proof fn law_profile_normalization_idempotent(
    p: ProfileView,
    existing: Option<ProfileView>,
    now: i64,
    fresh_id: Seq<char>,
    later: i64,
    other_id: Seq<char>,
)
    requires
        is_short_id(fresh_id),
        normalized_profile(p, existing, now, fresh_id) is Ok,
        normalized_profile(p, existing, now, fresh_id)->Ok_0.updated_at > 0,
    ensures
        ({
            let v = normalized_profile(p, existing, now, fresh_id)->Ok_0;
            normalized_profile(v, Some(v), later, other_id) == Ok::<ProfileView, Seq<char>>(v)
        }),
{
    let v = normalized_profile(p, existing, now, fresh_id)->Ok_0;
    crate::text::lemma_trim_idempotent(p.name);
    crate::text::lemma_trim_idempotent(p.provider_id);
    crate::text::lemma_trim_idempotent(p.model_id);
    crate::text::lemma_trim_idempotent(p.system_prompt);
    crate::text::lemma_trim_idempotent(p.description);
    crate::text::lemma_trim_idempotent(p.work_directory);
    crate::text::lemma_trim_idempotent(p.id);
    reveal_strlit("0.7");
    reveal_strlit("4096");
    reveal_strlit("agent_");
    assert(trim("0.7"@) == "0.7"@) by {
        crate::text::lemma_trim_start_skip("0.7"@, 0);
        assert("0.7"@.skip(0) =~= "0.7"@);
        crate::text::lemma_trim_end_take("0.7"@, 3);
        assert("0.7"@.take(3) =~= "0.7"@);
    }
    assert(trim("4096"@) == "4096"@) by {
        crate::text::lemma_trim_start_skip("4096"@, 0);
        assert("4096"@.skip(0) =~= "4096"@);
        crate::text::lemma_trim_end_take("4096"@, 4);
        assert("4096"@.take(4) =~= "4096"@);
    }
    crate::repositories::common::lemma_or_fallback_idempotent(p.temperature, "0.7"@);
    crate::repositories::common::lemma_or_fallback_idempotent(p.max_tokens, "4096"@);
    crate::repositories::common::lemma_normalized_list_idempotent(p.enabled_mcp_service_ids);
    crate::repositories::common::lemma_normalized_list_idempotent(p.enabled_tool_keys);
    if trim(p.id).len() == 0 {
        lemma_fresh_id_trimmed("agent_"@, fresh_id);
    }
    assert(normalized_profile(v, Some(v), later, other_id) == Ok::<ProfileView, Seq<char>>(v));
}

/// After a profile is stored, reading its id gives it back as normalized.
pub proof fn law_profile_upsert_then_get(
    before: Map<Seq<char>, ProfileView>,
    after: Map<Seq<char>, ProfileView>,
    p: ProfileView,
    now: i64,
    fresh_id: Seq<char>,
    r: Result<String, String>,
)
    requires
        upserted(before, after, p, now, fresh_id, r),
        r is Ok,
    ensures
        after.contains_key(r->Ok_0@),
        ({
            let key = trim(p.id);
            let existing = if key.len() > 0 && before.contains_key(key) { Some(before[key]) } else { None };
            Ok::<ProfileView, Seq<char>>(after[r->Ok_0@]) == normalized_profile(p, existing, now, fresh_id)
        }),
        forall|k: Seq<char>| k != r->Ok_0@ ==> #[trigger] after.contains_key(k) == before.contains_key(k)
            && (before.contains_key(k) ==> after[k] == before[k]),
{
}

fn is_blank(s: &str) -> (r: bool)
    ensures
        r == (trim(s@).len() == 0),
{
    trimmed(chars_of(s).as_slice()).len() == 0
}

/// Validates and normalizes a profile; `now` and `fresh_id` stand for the clock and the
/// random part of a new id.
pub fn normalize_profile(
    profile: &AgentProfile,
    existing: Option<&AgentProfile>,
    now: i64,
    fresh_id: &str,
) -> (r: Result<AgentProfile, String>)
    ensures
        match normalized_profile(
            profile@,
            match existing { Some(e) => Some(e@), None => None },
            now,
            fresh_id@,
        ) {
            Ok(v) => r is Ok && r->Ok_0@ == v,
            Err(e) => r is Err && r->Err_0@ == e,
        },
{
    if is_blank(profile.name.as_str()) {
        return Err(String::from_str("Agent 名称不能为空"));
    }
    if is_blank(profile.provider_id.as_str()) {
        return Err(String::from_str("provider_id 不能为空"));
    }
    if is_blank(profile.model_id.as_str()) {
        return Err(String::from_str("model_id 不能为空"));
    }
    if is_blank(profile.system_prompt.as_str()) {
        return Err(String::from_str("system_prompt 不能为空"));
    }
    let id = if is_blank(profile.id.as_str()) {
        let mut out = chars_of("agent_");
        push_str(&mut out, fresh_id);
        string_of(out.as_slice())
    } else {
        trimmed_string(profile.id.as_str())
    };
    let created_at = match existing {
        Some(e) => e.created_at,
        None => if profile.created_at > 0 { profile.created_at } else { now },
    };
    let updated_at = if profile.updated_at > 0 { profile.updated_at } else { now };
    Ok(AgentProfile {
        id,
        name: trimmed_string(profile.name.as_str()),
        description: trimmed_string(profile.description.as_str()),
        provider_id: trimmed_string(profile.provider_id.as_str()),
        model_id: trimmed_string(profile.model_id.as_str()),
        temperature: normalize_optional_string(profile.temperature.as_str(), "0.7"),
        max_tokens: normalize_optional_string(profile.max_tokens.as_str(), "4096"),
        system_prompt: trimmed_string(profile.system_prompt.as_str()),
        work_directory: trimmed_string(profile.work_directory.as_str()),
        enabled_mcp_service_ids: normalize_list(profile.enabled_mcp_service_ids.as_slice()),
        enabled_tool_keys: normalize_list(profile.enabled_tool_keys.as_slice()),
        created_at,
        updated_at,
    })
}

/// The outcome of storing `p` into `before`, giving `after` and the answer `r`.
pub open spec fn upserted(
    before: Map<Seq<char>, ProfileView>,
    after: Map<Seq<char>, ProfileView>,
    p: ProfileView,
    now: i64,
    fresh_id: Seq<char>,
    r: Result<String, String>,
) -> bool {
    let key = trim(p.id);
    let existing = if key.len() > 0 && before.contains_key(key) {
        Some(before[key])
    } else {
        None
    };
    match normalized_profile(p, existing, now, fresh_id) {
        Ok(v) => r is Ok && r->Ok_0@ == v.id && after == before.insert(v.id, v),
        Err(e) => r is Err && r->Err_0@ == e && after == before,
    }
}

/// The profiles of the store, under their ids.
pub struct AgentProfileRepository {
    cache: KeyedStore<AgentProfile>,
}

impl AgentProfileRepository {
    pub closed spec fn wf(&self) -> bool {
        self.cache.wf()
    }

    /// The stored profiles, by key.
    pub closed spec fn profiles(&self) -> Map<Seq<char>, ProfileView> {
        self.cache.map()
    }

    /// The stored profiles in stored order.
    pub closed spec fn entries(&self) -> Seq<(Seq<char>, ProfileView)> {
        self.cache.entries()
    }

    /// A repository over the profiles read from the store; a later entry wins over an
    /// earlier one with the same key.
    pub fn new(entries: Vec<(String, AgentProfile)>) -> (r: Self)
        ensures
            r.wf(),
            r.profiles() == map_of(entry_views(entries@)),
    {
        AgentProfileRepository { cache: KeyedStore::from_entries(entries) }
    }

    /// The entries to write back to the store.
    pub fn snapshot(&self) -> (r: Vec<(String, AgentProfile)>)
        requires
            self.wf(),
        ensures
            entry_views(r@) == self.entries(),
            map_of(entry_views(r@)) == self.profiles(),
    {
        self.cache.pairs()
    }

    /// All profiles, newest first, then by lower-cased name, then by id.
    pub fn list(&self) -> (r: Result<Vec<AgentProfile>, String>)
        requires
            self.wf(),
        ensures
            r is Ok,
            is_ranked_permutation::<AgentProfile>(values_of(self.entries()), seq_views(r->Ok_0@)),
            crate::store::keyed::lists_map(self.profiles(), seq_views(r->Ok_0@)),
    {
        let values = self.cache.values();
        let sorted = sort_ranked(values);
        proof {
            self.cache.lemma_keys_distinct();
            crate::store::keyed::law_listing_is_the_map(self.entries(), seq_views(sorted@));
        }
        Ok(sorted)
    }

    /// The profile stored under `profile_id`.
    pub fn get(&self, profile_id: &str) -> (r: Result<Option<AgentProfile>, String>)
        requires
            self.wf(),
        ensures
            r is Ok,
            match r->Ok_0 {
                Some(p) => self.profiles().contains_key(profile_id@) && p@ == self.profiles()[profile_id@],
                None => !self.profiles().contains_key(profile_id@),
            },
    {
        match self.cache.get(profile_id) {
            Some(p) => Ok(Some(p.duplicate())),
            None => Ok(None),
        }
    }

    /// Stores a normalized profile under its id, given the time and the random part of a
    /// new id; the creation time of a stored profile with the same id is kept.
    pub fn upsert_with(&mut self, profile: &AgentProfile, now: i64, fresh_id: &str) -> (r: Result<String, String>)
        requires
            old(self).wf(),
        ensures
            final(self).wf(),
            upserted(old(self).profiles(), final(self).profiles(), profile@, now, fresh_id@, r),
    {
        let key = trimmed_string(profile.id.as_str());
        let blank = is_blank(profile.id.as_str());
        let existing: Option<AgentProfile> = if blank {
            None
        } else {
            match self.cache.get(key.as_str()) {
                Some(p) => Some(p.duplicate()),
                None => None,
            }
        };
        let normalized = match normalize_profile(profile, existing.as_ref(), now, fresh_id) {
            Ok(n) => n,
            Err(e) => {
                return Err(e);
            },
        };
        let id = normalized.id.clone();
        let out = normalized.id.clone();
        self.cache.insert(id, normalized);
        Ok(out)
    }

    /// Stores a normalized profile under its id, stamped with the current time; a profile
    /// without an id gets `agent_` and ten random characters.
    pub fn upsert(&mut self, profile: &AgentProfile) -> (r: Result<String, String>)
        requires
            old(self).wf(),
        ensures
            final(self).wf(),
            exists|now: i64, fresh: Seq<char>|
                is_short_id(fresh) && #[trigger] upserted(old(self).profiles(), final(self).profiles(), profile@, now, fresh, r),
    {
        let now = now_millis();
        let fresh = short_id();
        self.upsert_with(profile, now, fresh.as_str())
    }

    /// Removes the profile stored under `profile_id`.
    pub fn delete(&mut self, profile_id: &str) -> (r: Result<String, String>)
        requires
            old(self).wf(),
        ensures
            final(self).wf(),
            old(self).profiles().contains_key(profile_id@) ==> r is Ok && r->Ok_0@ == profile_id@
                && final(self).profiles() == old(self).profiles().remove(profile_id@),
            !old(self).profiles().contains_key(profile_id@) ==> r is Err && r->Err_0@
                == not_found_message(profile_id@, " Agent"@) && final(self).profiles() == old(self).profiles(),
    {
        match self.cache.remove(profile_id) {
            Some(_) => Ok(string_of(chars_of(profile_id).as_slice())),
            None => {
                assert(old(self).profiles().remove(profile_id@) =~= old(self).profiles());
                Err(not_found_text(profile_id, " Agent"))
            },
        }
    }
}

} // verus!
