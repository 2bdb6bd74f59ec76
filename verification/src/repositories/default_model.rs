//! Default-model settings under their keys, such as the chat assistant's and the request
//! body generator's.
use vstd::prelude::*;
use crate::models::default_model::{DefaultModelSetting, DefaultModelView};
use crate::order::{lex_le, lex_le_exec, lemma_lex_total, lemma_lex_transitive};
use crate::store::keyed::{Duplicate, KeyedStore, map_of, entry_views, seq_views, values_of};
use crate::store::ranked::{Ranked, sort_ranked, is_ranked_permutation};
use crate::text::{trim, trimmed, chars_of};

verus! {

impl Duplicate for DefaultModelSetting {
    fn duplicate(&self) -> (r: DefaultModelSetting) {
        self.copy()
    }
}

/// Settings are listed by key.
impl Ranked for DefaultModelSetting {
    open spec fn rank_le(a: DefaultModelView, b: DefaultModelView) -> bool {
        lex_le(a.key, b.key)
    }

    proof fn lemma_rank_total(a: DefaultModelView, b: DefaultModelView) {
        lemma_lex_total(a.key, b.key);
    }

    proof fn lemma_rank_transitive(a: DefaultModelView, b: DefaultModelView, c: DefaultModelView) {
        lemma_lex_transitive(a.key, b.key, c.key);
    }

    fn rank_le_exec(&self, other: &DefaultModelSetting) -> (r: bool) {
        lex_le_exec(chars_of(self.key.as_str()).as_slice(), chars_of(other.key.as_str()).as_slice())
    }
}

/// Why a setting is refused, if it is: its key, provider and model must not be blank.
pub open spec fn setting_error(s: DefaultModelView) -> Option<Seq<char>> {
    if trim(s.key).len() == 0 {
        Some("key 不能为空"@)
    } else if trim(s.provider_id).len() == 0 {
        Some("provider_id 不能为空"@)
    } else if trim(s.model_id).len() == 0 {
        Some("model_id 不能为空"@)
    } else {
        None
    }
}

fn is_blank(s: &str) -> (r: bool)
    ensures
        r == (trim(s@).len() == 0),
{
    trimmed(chars_of(s).as_slice()).len() == 0
}

/// Default-model settings under their keys.
pub struct DefaultModelSettingRepository {
    cache: KeyedStore<DefaultModelSetting>,
}

impl DefaultModelSettingRepository {
    pub closed spec fn wf(&self) -> bool {
        self.cache.wf()
    }

    /// The stored settings, by key.
    pub closed spec fn settings(&self) -> Map<Seq<char>, DefaultModelView> {
        self.cache.map()
    }

    /// The stored settings, in stored order.
    pub closed spec fn entries(&self) -> Seq<(Seq<char>, DefaultModelView)> {
        self.cache.entries()
    }

    /// A repository over the settings read from the store.
    pub fn new(entries: Vec<(String, DefaultModelSetting)>) -> (r: Self)
        ensures
            r.wf(),
            r.settings() == map_of(entry_views(entries@)),
    {
        DefaultModelSettingRepository { cache: KeyedStore::from_entries(entries) }
    }

    /// The entries to write back to the store.
    pub fn snapshot(&self) -> (r: Vec<(String, DefaultModelSetting)>)
        requires
            self.wf(),
        ensures
            map_of(entry_views(r@)) == self.settings(),
    {
        self.cache.pairs()
    }

    /// All settings, by key.
    pub fn list(&self) -> (r: Result<Vec<DefaultModelSetting>, String>)
        requires
            self.wf(),
        ensures
            r is Ok,
            is_ranked_permutation::<DefaultModelSetting>(values_of(self.entries()), seq_views(r->Ok_0@)),
            crate::store::keyed::lists_map(self.settings(), seq_views(r->Ok_0@)),
    {
        let sorted = sort_ranked(self.cache.values());
        proof {
            self.cache.lemma_keys_distinct();
            crate::store::keyed::law_listing_is_the_map(self.entries(), seq_views(sorted@));
        }
        Ok(sorted)
    }

    /// Stores a setting under its key, as given.
    pub fn upsert(&mut self, setting: &DefaultModelSetting) -> (r: Result<String, String>)
        requires
            old(self).wf(),
        ensures
            final(self).wf(),
            match setting_error(setting@) {
                Some(e) => r is Err && r->Err_0@ == e && final(self).settings() == old(self).settings(),
                None => r is Ok && r->Ok_0@ == setting@.key && final(self).settings() == old(self).settings().insert(
                    setting@.key,
                    setting@,
                ),
            },
    {
        if is_blank(setting.key.as_str()) {
            return Err(String::from_str("key 不能为空"));
        }
        if is_blank(setting.provider_id.as_str()) {
            return Err(String::from_str("provider_id 不能为空"));
        }
        if is_blank(setting.model_id.as_str()) {
            return Err(String::from_str("model_id 不能为空"));
        }
        let key = setting.key.clone();
        self.cache.insert(setting.key.clone(), setting.copy());
        Ok(key)
    }
}

/// Listing after a setting is stored gives the earlier settings with the one under its key
/// replaced by (or joined by) the new setting: it is listed, every setting under another key
/// stays listed, nothing else is listed, and the count grows only for a new key.
pub proof fn law_upsert_then_list(
    before: DefaultModelSettingRepository,
    after: DefaultModelSettingRepository,
    setting: DefaultModelView,
    listed: Seq<DefaultModelView>,
)
    requires
        before.wf(),
        after.wf(),
        setting_error(setting) is None,
        after.settings() == before.settings().insert(setting.key, setting),
        crate::store::keyed::lists_map(after.settings(), listed),
    ensures
        listed.contains(setting),
        forall|k: Seq<char>| k != setting.key && #[trigger] before.settings().contains_key(k) ==> listed.contains(
            before.settings()[k],
        ),
        forall|i: int| 0 <= i < listed.len() ==> #[trigger] listed[i] == setting || exists|k: Seq<char>|
            k != setting.key && before.settings().contains_key(k) && before.settings()[k] == listed[i],
        listed.len() == before.settings().len() + (if before.settings().contains_key(setting.key) { 0int } else { 1int }),
{
    before.cache.lemma_keys_distinct();
    crate::store::keyed::lemma_map_of_len(before.entries());
    let m = after.settings();
    assert(m.contains_key(setting.key));
    assert forall|k: Seq<char>| k != setting.key && #[trigger] before.settings().contains_key(k) implies listed.contains(
        before.settings()[k],
    ) by {
        assert(m.contains_key(k));
    }
    assert forall|i: int| 0 <= i < listed.len() implies #[trigger] listed[i] == setting || exists|k: Seq<char>|
        k != setting.key && before.settings().contains_key(k) && before.settings()[k] == listed[i] by {
        assert(crate::store::keyed::stored_in(m, listed[i]));
        let k = choose|k: Seq<char>| m.contains_key(k) && m[k] == listed[i];
        if k != setting.key {
            assert(before.settings().contains_key(k) && before.settings()[k] == listed[i]);
        }
    }
    if before.settings().contains_key(setting.key) {
        assert(m.dom() =~= before.settings().dom());
    } else {
        assert(m.dom() =~= before.settings().dom().insert(setting.key));
    }
}

} // verus!
