//! Provider settings under their provider ids, the models each provider offers, and the
//! move of both out of the two older shapes of the store.
use vstd::prelude::*;
use crate::models::model_config::{
    ProviderModel, ProviderModelCapabilities, ProviderModelView, ProviderSetting, ProviderSettingView,
};
use crate::order::{lex_le, lex_le_exec, lemma_lex_total, lemma_lex_transitive};
use crate::repositories::agent_profile::{pair_le, pair_le_exec, lemma_pair_total, lemma_pair_transitive};
use crate::store::keyed::{Duplicate, KeyedStore, map_of, entry_views, seq_views, values_of};
use crate::store::ranked::{keeps_ties, Ranked, sort_ranked, is_ranked_permutation};
use crate::text::{trim, trimmed, chars_of, push_str, string_of, seq_eq};

verus! {

impl Duplicate for ProviderSetting {
    fn duplicate(&self) -> (r: ProviderSetting) {
        self.copy()
    }
}

impl Duplicate for ProviderModel {
    fn duplicate(&self) -> (r: ProviderModel) {
        self.copy()
    }
}

/// Provider settings are listed by provider id.
impl Ranked for ProviderSetting {
    open spec fn rank_le(a: ProviderSettingView, b: ProviderSettingView) -> bool {
        lex_le(a.provider_id, b.provider_id)
    }

    proof fn lemma_rank_total(a: ProviderSettingView, b: ProviderSettingView) {
        lemma_lex_total(a.provider_id, b.provider_id);
    }

    proof fn lemma_rank_transitive(a: ProviderSettingView, b: ProviderSettingView, c: ProviderSettingView) {
        lemma_lex_transitive(a.provider_id, b.provider_id, c.provider_id);
    }

    fn rank_le_exec(&self, other: &ProviderSetting) -> (r: bool) {
        lex_le_exec(chars_of(self.provider_id.as_str()).as_slice(), chars_of(other.provider_id.as_str()).as_slice())
    }
}

/// Models are listed by provider id, then by model id.
impl Ranked for ProviderModel {
    open spec fn rank_le(a: ProviderModelView, b: ProviderModelView) -> bool {
        pair_le(a.provider_id, a.model_id, b.provider_id, b.model_id)
    }

    proof fn lemma_rank_total(a: ProviderModelView, b: ProviderModelView) {
        lemma_pair_total(a.provider_id, a.model_id, b.provider_id, b.model_id);
    }

    proof fn lemma_rank_transitive(a: ProviderModelView, b: ProviderModelView, c: ProviderModelView) {
        lemma_pair_transitive(a.provider_id, a.model_id, b.provider_id, b.model_id, c.provider_id, c.model_id);
    }

    fn rank_le_exec(&self, other: &ProviderModel) -> (r: bool) {
        pair_le_exec(
            chars_of(self.provider_id.as_str()).as_slice(),
            chars_of(self.model_id.as_str()).as_slice(),
            chars_of(other.provider_id.as_str()).as_slice(),
            chars_of(other.model_id.as_str()).as_slice(),
        )
    }
}

/// Models by provider id, then model id; models with the same ids keep their order.
pub fn sort_models(models: Vec<ProviderModel>) -> (r: Vec<ProviderModel>)
    ensures
        is_ranked_permutation::<ProviderModel>(seq_views(models@), seq_views(r@)),
        keeps_ties::<ProviderModel>(seq_views(models@), seq_views(r@)),
{
    sort_ranked(models)
}

fn is_blank(s: &str) -> (r: bool)
    ensures
        r == (trim(s@).len() == 0),
{
    trimmed(chars_of(s).as_slice()).len() == 0
}

/// Capabilities as the older shapes recorded them.
#[derive(Debug, Clone, Copy, PartialEq, Eq, Default, Structural)]
pub struct LegacyProviderModelCapabilities {
    pub chat: bool,
    pub vision: bool,
    pub tool_call: bool,
    pub reasoning: bool,
    pub embedding: bool,
}

impl LegacyProviderModelCapabilities {
    /// The same flags as current capabilities.
    pub fn to_capabilities(self) -> (r: ProviderModelCapabilities)
        ensures
            r.chat == self.chat && r.vision == self.vision && r.tool_call == self.tool_call && r.reasoning
                == self.reasoning && r.embedding == self.embedding,
    {
        ProviderModelCapabilities {
            chat: self.chat,
            vision: self.vision,
            tool_call: self.tool_call,
            reasoning: self.reasoning,
            embedding: self.embedding,
        }
    }
}

/// A model in the flat older shape.
#[derive(Debug, Clone)]
pub struct FlatLegacyProviderModel {
    pub model_id: String,
    pub capabilities: LegacyProviderModelCapabilities,
}

/// A provider in the flat older shape: settings and models in one record.
#[derive(Debug, Clone)]
pub struct FlatLegacyProviderConfig {
    pub provider_id: String,
    pub enabled: bool,
    pub api_key: String,
    pub base_url: String,
    pub models: Vec<FlatLegacyProviderModel>,
}

/// Connection settings in the monolithic older shape.
#[derive(Debug, Clone)]
pub struct MonolithLegacyProviderConnection {
    pub api_key: Option<String>,
    pub base_url: Option<String>,
}

/// A model in the monolithic older shape.
#[derive(Debug, Clone)]
pub struct MonolithLegacyProviderModel {
    pub id: String,
    pub capabilities: LegacyProviderModelCapabilities,
}

/// The model catalog in the monolithic older shape.
#[derive(Debug, Clone)]
pub struct MonolithLegacyProviderCatalog {
    pub items: Vec<MonolithLegacyProviderModel>,
}

/// A provider in the monolithic older shape.
#[derive(Debug, Clone)]
pub struct MonolithLegacyProviderConfig {
    pub provider_key: String,
    pub enabled: bool,
    pub connection: MonolithLegacyProviderConnection,
    pub catalog: MonolithLegacyProviderCatalog,
}

/// The provider id of a legacy record: its own when not blank, else the key it was stored
/// under.
pub open spec fn legacy_provider_id(key: Seq<char>, own: Seq<char>) -> Seq<char> {
    if trim(own).len() == 0 {
        key
    } else {
        own
    }
}

fn legacy_provider_id_exec(key: &String, own: &String) -> (r: String)
    ensures
        r@ == legacy_provider_id(key@, own@),
{
    if is_blank(own.as_str()) {
        key.clone()
    } else {
        own.clone()
    }
}

pub open spec fn text_or_empty(v: Option<String>) -> Seq<char> {
    match v {
        Some(s) => s@,
        None => Seq::empty(),
    }
}

/// Provider settings from the flat older shape, as `(key, setting)` entries in order.
pub open spec fn settings_from_flat(v: Seq<(String, FlatLegacyProviderConfig)>) -> Seq<(Seq<char>, ProviderSettingView)> {
    Seq::new(
        v.len(),
        |i: int|
            {
                let id = legacy_provider_id(v[i].0@, v[i].1.provider_id@);
                (id, ProviderSettingView {
                    provider_id: id,
                    enabled: v[i].1.enabled,
                    api_key: v[i].1.api_key@,
                    base_url: v[i].1.base_url@,
                })
            },
    )
}

/// Provider settings from the monolithic older shape, as `(key, setting)` entries in order.
pub open spec fn settings_from_monolith(v: Seq<(String, MonolithLegacyProviderConfig)>) -> Seq<(Seq<char>, ProviderSettingView)> {
    Seq::new(
        v.len(),
        |i: int|
            {
                let id = legacy_provider_id(v[i].0@, v[i].1.provider_key@);
                (id, ProviderSettingView {
                    provider_id: id,
                    enabled: v[i].1.enabled,
                    api_key: text_or_empty(v[i].1.connection.api_key),
                    base_url: text_or_empty(v[i].1.connection.base_url),
                })
            },
    )
}

/// The settings to start from, and whether they were moved out of an older shape: the
/// current file when it holds any, else the flat older file, else the monolithic one. A
/// file that could not be read counts as empty; a failure to read one that is needed leaves
/// nothing.
pub open spec fn loaded_settings(
    current: Result<Seq<(String, ProviderSetting)>, Seq<char>>,
    flat: Result<Seq<(String, FlatLegacyProviderConfig)>, Seq<char>>,
    monolith: Result<Seq<(String, MonolithLegacyProviderConfig)>, Seq<char>>,
) -> (Map<Seq<char>, ProviderSettingView>, bool) {
    match current {
        Err(_) => (Map::empty(), false),
        Ok(c) => if c.len() > 0 {
            (map_of(entry_views(c)), false)
        } else {
            match flat {
                Err(_) => (Map::empty(), false),
                Ok(f) => if f.len() > 0 {
                    (map_of(settings_from_flat(f)), true)
                } else {
                    match monolith {
                        Err(_) => (Map::empty(), false),
                        Ok(m) => if m.len() > 0 {
                            (map_of(settings_from_monolith(m)), true)
                        } else {
                            (Map::empty(), false)
                        },
                    }
                },
            }
        },
    }
}

/// Picks the provider settings to start from; see `loaded_settings`.
pub fn load_provider_setting_cache(
    current: Result<Vec<(String, ProviderSetting)>, String>,
    flat: Result<Vec<(String, FlatLegacyProviderConfig)>, String>,
    monolith: Result<Vec<(String, MonolithLegacyProviderConfig)>, String>,
) -> (r: (ProviderSettingRepository, bool))
    ensures
        r.0.wf(),
        ({
            let c = match current { Ok(v) => Ok(v@), Err(e) => Err(e@) };
            let f = match flat { Ok(v) => Ok(v@), Err(e) => Err(e@) };
            let m = match monolith { Ok(v) => Ok(v@), Err(e) => Err(e@) };
            (r.0.settings(), r.1) == loaded_settings(c, f, m)
        }),
{
    let empty: Vec<(String, ProviderSetting)> = Vec::new();
    match current {
        Err(_) => {
            return (ProviderSettingRepository::new(empty), false);
        },
        Ok(c) => {
            if c.len() > 0 {
                return (ProviderSettingRepository::new(c), false);
            }
        },
    }
    match flat {
        Err(_) => {
            return (ProviderSettingRepository::new(empty), false);
        },
        Ok(f) => {
            if f.len() > 0 {
                let mut out: Vec<(String, ProviderSetting)> = Vec::new();
                let mut i: usize = 0;
                while i < f.len()
                    invariant
                        i <= f@.len(),
                        out@.len() == i,
                        forall|j: int| 0 <= j < i ==> #[trigger] entry_views(out@)[j] == settings_from_flat(f@)[j],
                    decreases f@.len() - i,
                {
                    let id = legacy_provider_id_exec(&f[i].0, &f[i].1.provider_id);
                    let setting = ProviderSetting {
                        provider_id: id.clone(),
                        enabled: f[i].1.enabled,
                        api_key: f[i].1.api_key.clone(),
                        base_url: f[i].1.base_url.clone(),
                    };
                    let ghost before = out@;
                    out.push((id, setting));
                    assert forall|j: int| 0 <= j < i implies #[trigger] entry_views(out@)[j] == settings_from_flat(f@)[j] by {
                        assert(out@[j] == before[j]);
                        assert(entry_views(before)[j] == settings_from_flat(f@)[j]);
                    }
                    assert(entry_views(out@)[i as int] == settings_from_flat(f@)[i as int]);
                    i += 1;
                }
                assert(entry_views(out@) =~= settings_from_flat(f@));
                return (ProviderSettingRepository::new(out), true);
            }
        },
    }
    match monolith {
        Err(_) => (ProviderSettingRepository::new(empty), false),
        Ok(m) => {
            if m.len() == 0 {
                return (ProviderSettingRepository::new(empty), false);
            }
            let mut out: Vec<(String, ProviderSetting)> = Vec::new();
            let mut i: usize = 0;
            while i < m.len()
                invariant
                    i <= m@.len(),
                    out@.len() == i,
                    forall|j: int| 0 <= j < i ==> #[trigger] entry_views(out@)[j] == settings_from_monolith(m@)[j],
                decreases m@.len() - i,
            {
                let id = legacy_provider_id_exec(&m[i].0, &m[i].1.provider_key);
                let api_key = match &m[i].1.connection.api_key {
                    Some(k) => k.clone(),
                    None => String::new(),
                };
                let base_url = match &m[i].1.connection.base_url {
                    Some(u) => u.clone(),
                    None => String::new(),
                };
                let setting = ProviderSetting {
                    provider_id: id.clone(),
                    enabled: m[i].1.enabled,
                    api_key,
                    base_url,
                };
                let ghost before = out@;
                out.push((id, setting));
                assert forall|j: int| 0 <= j < i implies #[trigger] entry_views(out@)[j] == settings_from_monolith(m@)[j] by {
                    assert(out@[j] == before[j]);
                    assert(entry_views(before)[j] == settings_from_monolith(m@)[j]);
                }
                assert(entry_views(out@)[i as int] == settings_from_monolith(m@)[i as int]);
                i += 1;
            }
            assert(entry_views(out@) =~= settings_from_monolith(m@));
            (ProviderSettingRepository::new(out), true)
        },
    }
}

pub open spec fn caps(c: LegacyProviderModelCapabilities) -> ProviderModelCapabilities {
    ProviderModelCapabilities {
        chat: c.chat,
        vision: c.vision,
        tool_call: c.tool_call,
        reasoning: c.reasoning,
        embedding: c.embedding,
    }
}

/// The models of one flat legacy provider with a model id that is not blank.
pub open spec fn flat_models(id: Seq<char>, models: Seq<FlatLegacyProviderModel>) -> Seq<ProviderModelView>
    decreases models.len(),
{
    if models.len() == 0 {
        Seq::empty()
    } else {
        let rest = flat_models(id, models.drop_last());
        let m = models.last();
        if trim(m.model_id@).len() == 0 {
            rest
        } else {
            rest.push(ProviderModelView { provider_id: id, model_id: m.model_id@, capabilities: caps(m.capabilities) })
        }
    }
}

/// The models of all flat legacy providers, provider by provider.
pub open spec fn models_from_flat(v: Seq<(String, FlatLegacyProviderConfig)>) -> Seq<ProviderModelView>
    decreases v.len(),
{
    if v.len() == 0 {
        Seq::empty()
    } else {
        models_from_flat(v.drop_last()) + flat_models(
            legacy_provider_id(v.last().0@, v.last().1.provider_id@),
            v.last().1.models@,
        )
    }
}

/// The models of one monolithic legacy provider with an id that is not blank.
pub open spec fn monolith_models(id: Seq<char>, models: Seq<MonolithLegacyProviderModel>) -> Seq<ProviderModelView>
    decreases models.len(),
{
    if models.len() == 0 {
        Seq::empty()
    } else {
        let rest = monolith_models(id, models.drop_last());
        let m = models.last();
        if trim(m.id@).len() == 0 {
            rest
        } else {
            rest.push(ProviderModelView { provider_id: id, model_id: m.id@, capabilities: caps(m.capabilities) })
        }
    }
}

/// The models of all monolithic legacy providers, provider by provider.
pub open spec fn models_from_monolith(v: Seq<(String, MonolithLegacyProviderConfig)>) -> Seq<ProviderModelView>
    decreases v.len(),
{
    if v.len() == 0 {
        Seq::empty()
    } else {
        models_from_monolith(v.drop_last()) + monolith_models(
            legacy_provider_id(v.last().0@, v.last().1.provider_key@),
            v.last().1.catalog.items@,
        )
    }
}

/// The models to start from, in no particular order, and whether they were moved out of an
/// older shape, picked as for the settings.
pub open spec fn loaded_models(
    current: Result<Seq<ProviderModel>, Seq<char>>,
    flat: Result<Seq<(String, FlatLegacyProviderConfig)>, Seq<char>>,
    monolith: Result<Seq<(String, MonolithLegacyProviderConfig)>, Seq<char>>,
) -> (Seq<ProviderModelView>, bool) {
    match current {
        Err(_) => (Seq::empty(), false),
        Ok(c) => if c.len() > 0 {
            (seq_views(c), false)
        } else {
            match flat {
                Err(_) => (Seq::empty(), false),
                Ok(f) => if f.len() > 0 {
                    (models_from_flat(f), true)
                } else {
                    match monolith {
                        Err(_) => (Seq::empty(), false),
                        Ok(m) => if m.len() > 0 {
                            (models_from_monolith(m), true)
                        } else {
                            (Seq::empty(), false)
                        },
                    }
                },
            }
        },
    }
}

fn push_flat_models(out: &mut Vec<ProviderModel>, id: &String, models: &Vec<FlatLegacyProviderModel>)
    ensures
        seq_views(final(out)@) == seq_views(old(out)@) + flat_models(id@, models@),
{
    let ghost start = seq_views(out@);
    let mut i: usize = 0;
    assert(models@.take(0) =~= Seq::<FlatLegacyProviderModel>::empty());
    assert(seq_views(out@) =~= start + flat_models(id@, models@.take(0)));
    while i < models.len()
        invariant
            i <= models@.len(),
            seq_views(out@) == start + flat_models(id@, models@.take(i as int)),
        decreases models@.len() - i,
    {
        assert(models@.take(i + 1).drop_last() =~= models@.take(i as int));
        let m = &models[i];
        if !is_blank(m.model_id.as_str()) {
            let ghost before = seq_views(out@);
            out.push(ProviderModel { provider_id: id.clone(), model_id: m.model_id.clone(), capabilities: m.capabilities.to_capabilities() });
            assert(seq_views(out@) =~= before.push(seq_views(out@).last()));
            assert(seq_views(out@) =~= start + flat_models(id@, models@.take(i + 1)));
        } else {
            assert(seq_views(out@) =~= start + flat_models(id@, models@.take(i + 1)));
        }
        i += 1;
    }
    assert(models@.take(models@.len() as int) =~= models@);
}

fn push_monolith_models(out: &mut Vec<ProviderModel>, id: &String, models: &Vec<MonolithLegacyProviderModel>)
    ensures
        seq_views(final(out)@) == seq_views(old(out)@) + monolith_models(id@, models@),
{
    let ghost start = seq_views(out@);
    let mut i: usize = 0;
    assert(models@.take(0) =~= Seq::<MonolithLegacyProviderModel>::empty());
    assert(seq_views(out@) =~= start + monolith_models(id@, models@.take(0)));
    while i < models.len()
        invariant
            i <= models@.len(),
            seq_views(out@) == start + monolith_models(id@, models@.take(i as int)),
        decreases models@.len() - i,
    {
        assert(models@.take(i + 1).drop_last() =~= models@.take(i as int));
        let m = &models[i];
        if !is_blank(m.id.as_str()) {
            let ghost before = seq_views(out@);
            out.push(ProviderModel { provider_id: id.clone(), model_id: m.id.clone(), capabilities: m.capabilities.to_capabilities() });
            assert(seq_views(out@) =~= before.push(seq_views(out@).last()));
            assert(seq_views(out@) =~= start + monolith_models(id@, models@.take(i + 1)));
        } else {
            assert(seq_views(out@) =~= start + monolith_models(id@, models@.take(i + 1)));
        }
        i += 1;
    }
    assert(models@.take(models@.len() as int) =~= models@);
}

/// Picks the models to start from; see `loaded_models`. Models moved out of an older shape
/// come sorted.
pub fn load_provider_model_cache(
    current: Result<Vec<ProviderModel>, String>,
    flat: Result<Vec<(String, FlatLegacyProviderConfig)>, String>,
    monolith: Result<Vec<(String, MonolithLegacyProviderConfig)>, String>,
) -> (r: (ProviderModelRepository, bool))
    ensures
        ({
            let c = match current { Ok(v) => Ok(v@), Err(e) => Err(e@) };
            let f = match flat { Ok(v) => Ok(v@), Err(e) => Err(e@) };
            let m = match monolith { Ok(v) => Ok(v@), Err(e) => Err(e@) };
            let (models, moved) = loaded_models(c, f, m);
            &&& r.1 == moved
            &&& if moved {
                is_ranked_permutation::<ProviderModel>(models, r.0.models())
            } else {
                r.0.models() == models
            }
        }),
{
    let empty: Vec<ProviderModel> = Vec::new();
    assert(seq_views(empty@) =~= Seq::<ProviderModelView>::empty());
    match current {
        Err(_) => {
            return (ProviderModelRepository::new(empty), false);
        },
        Ok(c) => {
            if c.len() > 0 {
                return (ProviderModelRepository::new(c), false);
            }
        },
    }
    match flat {
        Err(_) => {
            return (ProviderModelRepository::new(empty), false);
        },
        Ok(f) => {
            if f.len() > 0 {
                let mut out: Vec<ProviderModel> = Vec::new();
                let mut i: usize = 0;
                assert(f@.take(0) =~= Seq::<(String, FlatLegacyProviderConfig)>::empty());
                assert(seq_views(out@) =~= Seq::<ProviderModelView>::empty());
                while i < f.len()
                    invariant
                        i <= f@.len(),
                        seq_views(out@) == models_from_flat(f@.take(i as int)),
                    decreases f@.len() - i,
                {
                    assert(f@.take(i + 1).drop_last() =~= f@.take(i as int));
                    let id = legacy_provider_id_exec(&f[i].0, &f[i].1.provider_id);
                    push_flat_models(&mut out, &id, &f[i].1.models);
                    i += 1;
                }
                assert(f@.take(f@.len() as int) =~= f@);
                let sorted = sort_models(out);
                return (ProviderModelRepository::new(sorted), true);
            }
        },
    }
    match monolith {
        Err(_) => (ProviderModelRepository::new(empty), false),
        Ok(m) => {
            if m.len() == 0 {
                return (ProviderModelRepository::new(empty), false);
            }
            let mut out: Vec<ProviderModel> = Vec::new();
            let mut i: usize = 0;
            assert(m@.take(0) =~= Seq::<(String, MonolithLegacyProviderConfig)>::empty());
            assert(seq_views(out@) =~= Seq::<ProviderModelView>::empty());
            while i < m.len()
                invariant
                    i <= m@.len(),
                    seq_views(out@) == models_from_monolith(m@.take(i as int)),
                decreases m@.len() - i,
            {
                assert(m@.take(i + 1).drop_last() =~= m@.take(i as int));
                let id = legacy_provider_id_exec(&m[i].0, &m[i].1.provider_key);
                push_monolith_models(&mut out, &id, &m[i].1.catalog.items);
                i += 1;
            }
            assert(m@.take(m@.len() as int) =~= m@);
            let sorted = sort_models(out);
            (ProviderModelRepository::new(sorted), true)
        },
    }
}

/// Provider settings under their provider ids.
pub struct ProviderSettingRepository {
    cache: KeyedStore<ProviderSetting>,
}

impl ProviderSettingRepository {
    pub closed spec fn wf(&self) -> bool {
        self.cache.wf()
    }

    /// The stored settings, by key.
    pub closed spec fn settings(&self) -> Map<Seq<char>, ProviderSettingView> {
        self.cache.map()
    }

    /// The stored settings, in stored order.
    pub closed spec fn entries(&self) -> Seq<(Seq<char>, ProviderSettingView)> {
        self.cache.entries()
    }

    /// A repository over the given settings.
    pub fn new(entries: Vec<(String, ProviderSetting)>) -> (r: Self)
        ensures
            r.wf(),
            r.settings() == map_of(entry_views(entries@)),
    {
        ProviderSettingRepository { cache: KeyedStore::from_entries(entries) }
    }

    /// The entries to write back to the store.
    pub fn snapshot(&self) -> (r: Vec<(String, ProviderSetting)>)
        requires
            self.wf(),
        ensures
            map_of(entry_views(r@)) == self.settings(),
    {
        self.cache.pairs()
    }

    /// All settings, by provider id.
    pub fn list(&self) -> (r: Result<Vec<ProviderSetting>, String>)
        requires
            self.wf(),
        ensures
            r is Ok,
            is_ranked_permutation::<ProviderSetting>(values_of(self.entries()), seq_views(r->Ok_0@)),
            crate::store::keyed::lists_map(self.settings(), seq_views(r->Ok_0@)),
    {
        let sorted = sort_ranked(self.cache.values());
        proof {
            self.cache.lemma_keys_distinct();
            crate::store::keyed::law_listing_is_the_map(self.entries(), seq_views(sorted@));
        }
        Ok(sorted)
    }

    /// Stores a setting under its provider id, as given.
    pub fn upsert(&mut self, setting: &ProviderSetting) -> (r: Result<String, String>)
        requires
            old(self).wf(),
        ensures
            final(self).wf(),
            trim(setting@.provider_id).len() == 0 ==> r is Err && r->Err_0@ == "provider_id 不能为空"@
                && final(self).settings() == old(self).settings(),
            trim(setting@.provider_id).len() > 0 ==> r is Ok && r->Ok_0@ == setting@.provider_id
                && final(self).settings() == old(self).settings().insert(setting@.provider_id, setting@),
    {
        if is_blank(setting.provider_id.as_str()) {
            return Err(String::from_str("provider_id 不能为空"));
        }
        let key = setting.provider_id.clone();
        self.cache.insert(setting.provider_id.clone(), setting.copy());
        Ok(key)
    }

    /// Removes the setting stored under `provider_id`.
    pub fn delete(&mut self, provider_id: &str) -> (r: Result<String, String>)
        requires
            old(self).wf(),
        ensures
            final(self).wf(),
            final(self).settings() == old(self).settings().remove(provider_id@),
            old(self).settings().contains_key(provider_id@) ==> r is Ok && r->Ok_0@ == provider_id@,
            !old(self).settings().contains_key(provider_id@) ==> r is Err && r->Err_0@ == "未找到 provider_id 为 "@
                + provider_id@ + " 的配置"@,
    {
        match self.cache.remove(provider_id) {
            Some(_) => Ok(string_of(chars_of(provider_id).as_slice())),
            None => {
                let mut out = chars_of("未找到 provider_id 为 ");
                push_str(&mut out, provider_id);
                push_str(&mut out, " 的配置");
                Err(string_of(out.as_slice()))
            },
        }
    }
}

/// The models not offered by `provider`, in order.
pub open spec fn without_provider(v: Seq<ProviderModelView>, provider: Seq<char>) -> Seq<ProviderModelView>
    decreases v.len(),
{
    if v.len() == 0 {
        Seq::empty()
    } else if v.last().provider_id != provider {
        without_provider(v.drop_last(), provider).push(v.last())
    } else {
        without_provider(v.drop_last(), provider)
    }
}

/// Why a replacement list is refused, if it is: the provider id must not be blank, and each
/// model must belong to it and have a model id.
pub open spec fn replacement_error(provider: Seq<char>, models: Seq<ProviderModelView>) -> Option<Seq<char>> {
    if trim(provider).len() == 0 {
        Some("provider_id 不能为空"@)
    } else {
        model_list_error(provider, models)
    }
}

/// The first model, in order, that does not belong to `provider` or has a blank id.
pub open spec fn model_list_error(provider: Seq<char>, models: Seq<ProviderModelView>) -> Option<Seq<char>>
    decreases models.len(),
{
    if models.len() == 0 {
        None
    } else {
        let m = models[0];
        if trim(m.provider_id).len() == 0 || m.provider_id != provider {
            Some("模型 provider_id 不合法"@)
        } else if trim(m.model_id).len() == 0 {
            Some("模型 model_id 不能为空"@)
        } else {
            model_list_error(provider, models.drop_first())
        }
    }
}

/// The models offered by each provider, kept sorted.
pub struct ProviderModelRepository {
    cache: Vec<ProviderModel>,
}

impl ProviderModelRepository {
    /// The stored models, in stored order.
    pub closed spec fn models(&self) -> Seq<ProviderModelView> {
        seq_views(self.cache@)
    }

    /// A repository over the given models, kept in the given order.
    pub fn new(models: Vec<ProviderModel>) -> (r: Self)
        ensures
            r.models() == seq_views(models@),
    {
        ProviderModelRepository { cache: models }
    }

    /// The models to write back to the store.
    pub fn snapshot(&self) -> (r: Vec<ProviderModel>)
        ensures
            seq_views(r@) == self.models(),
    {
        copy_models(&self.cache)
    }

    /// All models, by provider id and model id.
    pub fn list(&self) -> (r: Result<Vec<ProviderModel>, String>)
        ensures
            r is Ok,
            is_ranked_permutation::<ProviderModel>(self.models(), seq_views(r->Ok_0@)),
    {
        Ok(sort_models(copy_models(&self.cache)))
    }

    fn retain_other(&mut self, provider_id: &str)
        ensures
            final(self).models() == without_provider(old(self).models(), provider_id@),
    {
        let p = chars_of(provider_id);
        let mut kept: Vec<ProviderModel> = Vec::new();
        let mut rest: Vec<ProviderModel> = Vec::new();
        std::mem::swap(&mut rest, &mut self.cache);
        let ghost all = seq_views(rest@);
        let n = rest.len();
        let mut k: usize = 0;
        assert(seq_views(rest@) =~= all.skip(0));
        assert(all.take(0) =~= Seq::<ProviderModelView>::empty());
        assert(seq_views(kept@) =~= Seq::<ProviderModelView>::empty());
        while k < n
            invariant
                k <= n,
                n == all.len(),
                p@ == provider_id@,
                seq_views(rest@) == all.skip(k as int),
                seq_views(kept@) == without_provider(all.take(k as int), provider_id@),
            decreases n - k,
        {
            let ghost before_rest = rest@;
            assert(seq_views(before_rest).len() == before_rest.len());
            let m = rest.remove(0);
            assert(m@ == seq_views(before_rest)[0]);
            assert(m@ == all[k as int]);
            assert forall|q: int| 0 <= q < rest@.len() implies #[trigger] seq_views(rest@)[q] == all.skip(k + 1)[q] by {
                assert(rest@[q] == before_rest[q + 1]);
                assert(seq_views(before_rest)[q + 1] == all.skip(k as int)[q + 1]);
            }
            assert(seq_views(rest@) =~= all.skip(k + 1));
            assert(all.take(k + 1).drop_last() =~= all.take(k as int));
            if !seq_eq(chars_of(m.provider_id.as_str()).as_slice(), p.as_slice()) {
                let ghost before = seq_views(kept@);
                kept.push(m);
                assert(seq_views(kept@) =~= before.push(all[k as int]));
            }
            k += 1;
        }
        assert(all.take(n as int) =~= all);
        self.cache = kept;
    }

    /// Replaces the models of one provider with `models`; the list stays sorted, and models
    /// with the same ids come in the order of the kept models, then the new ones.
    pub fn replace_for_provider(&mut self, provider_id: &str, models: &[ProviderModel]) -> (r: Result<String, String>)
        ensures
            match replacement_error(provider_id@, seq_views(models@)) {
                Some(e) => r is Err && r->Err_0@ == e && final(self).models() == old(self).models(),
                None => r is Ok && r->Ok_0@ == provider_id@ && is_ranked_permutation::<ProviderModel>(
                    without_provider(old(self).models(), provider_id@) + seq_views(models@),
                    final(self).models(),
                ) && keeps_ties::<ProviderModel>(
                    without_provider(old(self).models(), provider_id@) + seq_views(models@),
                    final(self).models(),
                ),
            },
    {
        if is_blank(provider_id) {
            return Err(String::from_str("provider_id 不能为空"));
        }
        let p = chars_of(provider_id);
        let mut i: usize = 0;
        let ghost all = seq_views(models@);
        assert(all.skip(0) =~= all);
        while i < models.len()
            invariant
                i <= models@.len(),
                all == seq_views(models@),
                p@ == provider_id@,
                trim(provider_id@).len() > 0,
                model_list_error(provider_id@, all) == model_list_error(provider_id@, all.skip(i as int)),
            decreases models@.len() - i,
        {
            let m = &models[i];
            assert(all.skip(i as int)[0] == m@);
            assert(all.skip(i as int).drop_first() =~= all.skip(i + 1));
            if is_blank(m.provider_id.as_str()) || !seq_eq(chars_of(m.provider_id.as_str()).as_slice(), p.as_slice()) {
                return Err(String::from_str("模型 provider_id 不合法"));
            }
            if is_blank(m.model_id.as_str()) {
                return Err(String::from_str("模型 model_id 不能为空"));
            }
            i += 1;
        }
        assert(all.skip(i as int) =~= Seq::<ProviderModelView>::empty());
        self.retain_other(provider_id);
        let ghost kept = self.models();
        let mut combined = copy_models(&self.cache);
        let extra = copy_slice(models);
        let ghost c0 = combined@;
        let mut extra_mut = extra;
        combined.append(&mut extra_mut);
        assert(seq_views(combined@) =~= kept + all);
        self.cache = sort_models(combined);
        Ok(string_of(chars_of(provider_id).as_slice()))
    }

    /// Removes the models of one provider.
    pub fn delete_by_provider(&mut self, provider_id: &str) -> (r: Result<String, String>)
        ensures
            r is Ok && r->Ok_0@ == provider_id@,
            final(self).models() == without_provider(old(self).models(), provider_id@),
    {
        self.retain_other(provider_id);
        Ok(string_of(chars_of(provider_id).as_slice()))
    }
}

fn copy_models(v: &Vec<ProviderModel>) -> (r: Vec<ProviderModel>)
    ensures
        seq_views(r@) == seq_views(v@),
{
    copy_slice(v.as_slice())
}

fn copy_slice(v: &[ProviderModel]) -> (r: Vec<ProviderModel>)
    ensures
        seq_views(r@) == seq_views(v@),
{
    let mut r: Vec<ProviderModel> = Vec::new();
    let mut i: usize = 0;
    while i < v.len()
        invariant
            i <= v@.len(),
            r@.len() == i,
            forall|j: int| 0 <= j < i ==> #[trigger] r@[j]@ == v@[j]@,
        decreases v@.len() - i,
    {
        r.push(v[i].copy());
        i += 1;
    }
    assert(seq_views(r@) =~= seq_views(v@));
    r
}

} // verus!
