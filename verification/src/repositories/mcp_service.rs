//! MCP services under their ids, validated for their transport before they are stored.
use vstd::prelude::*;
use crate::models::mcp_service::{McpService, McpServiceDiscovery, McpTransportType, ServiceView, discovery_view};
use crate::repositories::agent_profile::{pair_le, pair_le_exec, lemma_pair_total, lemma_pair_transitive};
use crate::repositories::common::{trimmed_string, not_found_message, not_found_text};
use crate::store::keyed::{Duplicate, KeyedStore, map_of, entry_views, seq_views, values_of};
use crate::store::ranked::{Ranked, sort_ranked, is_ranked_permutation};
use crate::store::stamp::{short_id, is_short_id};
use crate::text::{trim, trimmed, chars_of, push_str, string_of};
use crate::unicode::{unicode_lower_str, str_to_lowercase};

verus! {

fn copy_discovery(d: &Option<McpServiceDiscovery>) -> (r: Option<McpServiceDiscovery>)
    ensures
        discovery_view(r) == discovery_view(*d),
{
    match d {
        Some(x) => Some(x.copy()),
        None => None,
    }
}

impl Duplicate for McpService {
    fn duplicate(&self) -> (r: McpService) {
        McpService {
            id: self.id.clone(),
            name: self.name.clone(),
            description: self.description.clone(),
            enabled: self.enabled,
            transport_type: self.transport_type,
            command: self.command.clone(),
            args: self.args.clone(),
            env: self.env.clone(),
            url: self.url.clone(),
            long_running: self.long_running,
            timeout_seconds: self.timeout_seconds,
            discovery: copy_discovery(&self.discovery),
        }
    }
}

/// Services are listed by lower-cased name, then by id.
impl Ranked for McpService {
    open spec fn rank_le(a: ServiceView, b: ServiceView) -> bool {
        pair_le(unicode_lower_str(a.name), a.id, unicode_lower_str(b.name), b.id)
    }

    proof fn lemma_rank_total(a: ServiceView, b: ServiceView) {
        lemma_pair_total(unicode_lower_str(a.name), a.id, unicode_lower_str(b.name), b.id);
    }

    proof fn lemma_rank_transitive(a: ServiceView, b: ServiceView, c: ServiceView) {
        lemma_pair_transitive(
            unicode_lower_str(a.name),
            a.id,
            unicode_lower_str(b.name),
            b.id,
            unicode_lower_str(c.name),
            c.id,
        );
    }

    fn rank_le_exec(&self, other: &McpService) -> (r: bool) {
        let a = str_to_lowercase(self.name.as_str());
        let b = str_to_lowercase(other.name.as_str());
        pair_le_exec(
            chars_of(a.as_str()).as_slice(),
            chars_of(self.id.as_str()).as_slice(),
            chars_of(b.as_str()).as_slice(),
            chars_of(other.id.as_str()).as_slice(),
        )
    }
}

/// The service as stored: text fields trimmed, a timeout of at least one second; it needs
/// a name, and a command or an address for its transport.
pub open spec fn normalized_service(s: ServiceView) -> Result<ServiceView, Seq<char>> {
    if trim(s.name).len() == 0 {
        Err("MCP 服务名称不能为空"@)
    } else if s.transport_type == McpTransportType::Stdio && trim(s.command).len() == 0 {
        Err("STDIO 类型的命令不能为空"@)
    } else if s.transport_type == McpTransportType::StreamableHttp && trim(s.url).len() == 0 {
        Err("Streamable HTTP 地址不能为空"@)
    } else {
        Ok(ServiceView {
            id: trim(s.id),
            name: trim(s.name),
            description: trim(s.description),
            enabled: s.enabled,
            transport_type: s.transport_type,
            command: trim(s.command),
            args: trim(s.args),
            env: trim(s.env),
            url: trim(s.url),
            long_running: s.long_running,
            timeout_seconds: if s.timeout_seconds < 1 { 1 } else { s.timeout_seconds },
            discovery: s.discovery,
        })
    }
}

fn is_blank(s: &str) -> (r: bool)
    ensures
        r == (trim(s@).len() == 0),
{
    trimmed(chars_of(s).as_slice()).len() == 0
}

/// Validates and normalizes a service.
pub fn normalize_service(service: &McpService) -> (r: Result<McpService, String>)
    ensures
        match normalized_service(service@) {
            Ok(v) => r is Ok && r->Ok_0@ == v,
            Err(e) => r is Err && r->Err_0@ == e,
        },
{
    if is_blank(service.name.as_str()) {
        return Err(String::from_str("MCP 服务名称不能为空"));
    }
    match service.transport_type {
        McpTransportType::Stdio => {
            if is_blank(service.command.as_str()) {
                return Err(String::from_str("STDIO 类型的命令不能为空"));
            }
        },
        McpTransportType::StreamableHttp => {
            if is_blank(service.url.as_str()) {
                return Err(String::from_str("Streamable HTTP 地址不能为空"));
            }
        },
    }
    Ok(McpService {
        id: trimmed_string(service.id.as_str()),
        name: trimmed_string(service.name.as_str()),
        description: trimmed_string(service.description.as_str()),
        enabled: service.enabled,
        transport_type: service.transport_type,
        command: trimmed_string(service.command.as_str()),
        args: trimmed_string(service.args.as_str()),
        env: trimmed_string(service.env.as_str()),
        url: trimmed_string(service.url.as_str()),
        long_running: service.long_running,
        timeout_seconds: if service.timeout_seconds < 1 { 1 } else { service.timeout_seconds },
        discovery: copy_discovery(&service.discovery),
    })
}

/// The outcome of storing `s` into `before`, giving `after` and the answer `r`; a service
/// without an id gets `mcp_` and `fresh_id`.
pub open spec fn service_upserted(
    before: Map<Seq<char>, ServiceView>,
    after: Map<Seq<char>, ServiceView>,
    s: ServiceView,
    fresh_id: Seq<char>,
    r: Result<String, String>,
) -> bool {
    match normalized_service(s) {
        Err(e) => r is Err && r->Err_0@ == e && after == before,
        Ok(v) => {
            let stored = if v.id.len() == 0 { ServiceView { id: "mcp_"@ + fresh_id, ..v } } else { v };
            r is Ok && r->Ok_0@ == stored.id && after == before.insert(stored.id, stored)
        },
    }
}

/// MCP services under their ids.
pub struct McpServiceRepository {
    cache: KeyedStore<McpService>,
}

impl McpServiceRepository {
    pub closed spec fn wf(&self) -> bool {
        self.cache.wf()
    }

    /// The stored services, by key.
    pub closed spec fn services(&self) -> Map<Seq<char>, ServiceView> {
        self.cache.map()
    }

    /// The stored services, in stored order.
    pub closed spec fn entries(&self) -> Seq<(Seq<char>, ServiceView)> {
        self.cache.entries()
    }

    /// A repository over the services read from the store.
    pub fn new(entries: Vec<(String, McpService)>) -> (r: Self)
        ensures
            r.wf(),
            r.services() == map_of(entry_views(entries@)),
    {
        McpServiceRepository { cache: KeyedStore::from_entries(entries) }
    }

    /// The entries to write back to the store.
    pub fn snapshot(&self) -> (r: Vec<(String, McpService)>)
        requires
            self.wf(),
        ensures
            map_of(entry_views(r@)) == self.services(),
    {
        self.cache.pairs()
    }

    /// All services, by lower-cased name, then by id.
    pub fn list(&self) -> (r: Result<Vec<McpService>, String>)
        requires
            self.wf(),
        ensures
            r is Ok,
            is_ranked_permutation::<McpService>(values_of(self.entries()), seq_views(r->Ok_0@)),
            crate::store::keyed::lists_map(self.services(), seq_views(r->Ok_0@)),
    {
        let sorted = sort_ranked(self.cache.values());
        proof {
            self.cache.lemma_keys_distinct();
            crate::store::keyed::law_listing_is_the_map(self.entries(), seq_views(sorted@));
        }
        Ok(sorted)
    }

    /// Stores a normalized service, given the random part of a new id.
    pub fn upsert_with(&mut self, service: &McpService, fresh_id: &str) -> (r: Result<String, String>)
        requires
            old(self).wf(),
        ensures
            final(self).wf(),
            service_upserted(old(self).services(), final(self).services(), service@, fresh_id@, r),
    {
        let mut normalized = match normalize_service(service) {
            Ok(n) => n,
            Err(e) => {
                return Err(e);
            },
        };
        if chars_of(normalized.id.as_str()).len() == 0 {
            let mut id = chars_of("mcp_");
            push_str(&mut id, fresh_id);
            normalized.id = string_of(id.as_slice());
        }
        let key = normalized.id.clone();
        let out = normalized.id.clone();
        self.cache.insert(key, normalized);
        Ok(out)
    }

    /// Stores a normalized service; one without an id gets `mcp_` and ten random characters.
    pub fn upsert(&mut self, service: &McpService) -> (r: Result<String, String>)
        requires
            old(self).wf(),
        ensures
            final(self).wf(),
            exists|fresh: Seq<char>|
                is_short_id(fresh) && #[trigger] service_upserted(old(self).services(), final(self).services(), service@, fresh, r),
    {
        let fresh = short_id();
        self.upsert_with(service, fresh.as_str())
    }

    /// Removes the service stored under `service_id`.
    pub fn delete(&mut self, service_id: &str) -> (r: Result<String, String>)
        requires
            old(self).wf(),
        ensures
            final(self).wf(),
            final(self).services() == old(self).services().remove(service_id@),
            old(self).services().contains_key(service_id@) ==> r is Ok && r->Ok_0@ == service_id@,
            !old(self).services().contains_key(service_id@) ==> r is Err && r->Err_0@ == not_found_message(
                service_id@,
                " MCP 服务"@,
            ),
    {
        match self.cache.remove(service_id) {
            Some(_) => Ok(string_of(chars_of(service_id).as_slice())),
            None => Err(not_found_text(service_id, " MCP 服务")),
        }
    }
}

} // verus!

verus! {

/// Storing a service that was just normalized again changes nothing.
pub proof fn law_service_normalization_idempotent(s: ServiceView)
    requires
        normalized_service(s) is Ok,
    ensures
        normalized_service(normalized_service(s)->Ok_0) == normalized_service(s),
{
    crate::text::lemma_trim_idempotent(s.id);
    crate::text::lemma_trim_idempotent(s.name);
    crate::text::lemma_trim_idempotent(s.description);
    crate::text::lemma_trim_idempotent(s.command);
    crate::text::lemma_trim_idempotent(s.args);
    crate::text::lemma_trim_idempotent(s.env);
    crate::text::lemma_trim_idempotent(s.url);
}

} // verus!
