//! Running an MCP discovery: the checks before connecting, the command line and environment
//! of a local service, the tool choices kept from the last run, and the messages shown on
//! failure.
use vstd::prelude::*;
use crate::models::mcp_service::{
    McpDiscoveredTool, McpService, McpServiceDiscovery, McpTransportType, ToolView,
};
use crate::api_http::request_prep::string_views;
use crate::repositories::common::{normalized_list, normalize_list};
use crate::store::keyed::{Duplicate, KeyedStore, map_of, entry_views, keys_distinct};
use crate::text::{
    trim, trimmed, chars_of, push_str, push_all, push_dec, string_of, lines_of, lines, views, dec,
    occ_from, find_occ, occurs_at, seq_eq, slice_of,
};

verus! {

impl Duplicate for String {
    fn duplicate(&self) -> (r: String) {
        self.clone()
    }
}

/// Why a service cannot be reached yet, if so: a local service needs a command, a remote
/// one an address.
pub open spec fn discovery_error(s: McpTransportType, command: Seq<char>, url: Seq<char>) -> Option<Seq<char>> {
    match s {
        McpTransportType::Stdio => if trim(command).len() == 0 {
            Some("请先填写 STDIO 命令"@)
        } else {
            None
        },
        McpTransportType::StreamableHttp => if trim(url).len() == 0 {
            Some("请先填写 Streamable HTTP 地址"@)
        } else {
            None
        },
    }
}

fn is_blank(s: &str) -> (r: bool)
    ensures
        r == (trim(s@).len() == 0),
{
    trimmed(chars_of(s).as_slice()).len() == 0
}

/// Checks that a service can be reached before a discovery run.
pub fn validate_service_for_discovery(service: &McpService) -> (r: Result<(), String>)
    ensures
        match discovery_error(service@.transport_type, service@.command, service@.url) {
            Some(e) => r is Err && r->Err_0@ == e,
            None => r is Ok,
        },
{
    match service.transport_type {
        McpTransportType::Stdio => {
            if is_blank(service.command.as_str()) {
                return Err(String::from_str("请先填写 STDIO 命令"));
            }
        },
        McpTransportType::StreamableHttp => {
            if is_blank(service.url.as_str()) {
                return Err(String::from_str("请先填写 Streamable HTTP 地址"));
            }
        },
    }
    Ok(())
}

/// The arguments of a local service: one per line, trimmed, blank lines skipped.
pub fn parse_args(raw: &str) -> (r: Vec<String>)
    ensures
        string_views(r@) == normalized_list(lines_of(raw@)),
{
    let ls = lines(chars_of(raw).as_slice());
    let mut strings: Vec<String> = Vec::new();
    let mut i: usize = 0;
    while i < ls.len()
        invariant
            i <= ls@.len(),
            strings@.len() == i,
            forall|j: int| 0 <= j < i ==> #[trigger] strings@[j]@ == ls@[j]@,
        decreases ls@.len() - i,
    {
        strings.push(string_of(ls[i].as_slice()));
        i += 1;
    }
    assert(string_views(strings@) =~= views(ls@));
    normalize_list(strings.as_slice())
}

/// `环境变量第 {n} 行格式不正确，应为 KEY=value`.
pub open spec fn env_format_error(n: nat) -> Seq<char> {
    "环境变量第 "@ + dec(n) + " 行格式不正确，应为 KEY=value"@
}

/// `环境变量第 {n} 行的 KEY 不能为空`.
pub open spec fn env_key_error(n: nat) -> Seq<char> {
    "环境变量第 "@ + dec(n) + " 行的 KEY 不能为空"@
}

/// The assignments of the environment, line by line: a blank line is skipped, a line is
/// split at its first `=`, the key is trimmed and must not be blank, the value is kept as
/// it follows the `=`. The first bad line, counted from one, is reported.
pub open spec fn env_entries(ls: Seq<Seq<char>>) -> Result<Seq<(Seq<char>, Seq<char>)>, Seq<char>>
    decreases ls.len(),
{
    if ls.len() == 0 {
        Ok(Seq::empty())
    } else {
        match env_entries(ls.drop_last()) {
            Err(e) => Err(e),
            Ok(acc) => {
                let t = trim(ls.last());
                if t.len() == 0 {
                    Ok(acc)
                } else {
                    match occ_from(t, seq!['='], 0) {
                        None => Err(env_format_error(ls.len())),
                        Some(k) => if trim(t.take(k)).len() == 0 {
                            Err(env_key_error(ls.len()))
                        } else {
                            Ok(acc.push((trim(t.take(k)), t.skip(k + 1))))
                        },
                    }
                }
            },
        }
    }
}

/// The environment a local service is started with: each key with the value of its last
/// assignment.
pub open spec fn env_of(raw: Seq<char>) -> Result<Map<Seq<char>, Seq<char>>, Seq<char>> {
    match env_entries(lines_of(raw)) {
        Ok(e) => Ok(map_of(e)),
        Err(e) => Err(e),
    }
}

pub proof fn lemma_env_err_sticks(ls: Seq<Seq<char>>, k: int)
    requires
        0 <= k <= ls.len(),
        env_entries(ls.take(k)) is Err,
    ensures
        env_entries(ls) == env_entries(ls.take(k)),
    decreases ls.len() - k,
{
    if k < ls.len() {
        assert(ls.take(k + 1).drop_last() =~= ls.take(k));
        lemma_env_err_sticks(ls, k + 1);
    } else {
        assert(ls.take(k) =~= ls);
    }
}

fn line_error(prefix_len: usize, with_key: bool) -> (r: String)
    requires
        prefix_len < u64::MAX,
    ensures
        with_key ==> r@ == env_key_error((prefix_len + 1) as nat),
        !with_key ==> r@ == env_format_error((prefix_len + 1) as nat),
{
    let mut out = chars_of("环境变量第 ");
    push_dec(&mut out, (prefix_len as u64) + 1);
    if with_key {
        push_str(&mut out, " 行的 KEY 不能为空");
    } else {
        push_str(&mut out, " 行格式不正确，应为 KEY=value");
    }
    string_of(out.as_slice())
}

/// Reads the environment of a local service, one `KEY=value` per line; a later assignment
/// to a key wins. The result has each key once.
pub fn parse_env(raw: &str) -> (r: Result<Vec<(String, String)>, String>)
    ensures
        match env_of(raw@) {
            Ok(m) => r is Ok && keys_distinct(entry_views(r->Ok_0@)) && map_of(entry_views(r->Ok_0@)) == m,
            Err(e) => r is Err && r->Err_0@ == e,
        },
{
    let ls = lines(chars_of(raw).as_slice());
    let ghost all = views(ls@);
    let mut entries: Vec<(String, String)> = Vec::new();
    let mut i: usize = 0;
    assert(all.take(0) =~= Seq::<Seq<char>>::empty());
    assert(entry_views(entries@) =~= Seq::<(Seq<char>, Seq<char>)>::empty());
    while i < ls.len()
        invariant
            i <= ls@.len(),
            all == views(ls@),
            all == lines_of(raw@),
            env_entries(all.take(i as int)) == Ok::<Seq<(Seq<char>, Seq<char>)>, Seq<char>>(entry_views(entries@)),
        decreases ls@.len() - i,
    {
        assert(all.take(i + 1).drop_last() =~= all.take(i as int));
        assert(all.take(i + 1).last() == ls@[i as int]@);
        assert(all.take(i + 1).len() == i + 1);
        let t = trimmed(ls[i].as_slice());
        if t.len() > 0 {
            let eq: Vec<char> = vec!['='];
            assert(eq@ =~= seq!['=']);
            match find_occ(t.as_slice(), eq.as_slice(), 0) {
                None => {
                    proof { lemma_env_err_sticks(all, (i + 1) as int); }
                    return Err(line_error(i, false));
                },
                Some(k) => {
                    assert(occurs_at(t@, eq@, k as int));
                    assert(eq@.len() == 1);
                    let key = trimmed(slice_of(t.as_slice(), 0, k).as_slice());
                    assert(t@.subrange(0, k as int) =~= t@.take(k as int));
                    if key.len() == 0 {
                        proof { lemma_env_err_sticks(all, (i + 1) as int); }
                        return Err(line_error(i, true));
                    }
                    let value = slice_of(t.as_slice(), k + 1, t.len());
                    assert(value@ =~= t@.skip(k + 1));
                    let ghost before = entry_views(entries@);
                    entries.push((string_of(key.as_slice()), string_of(value.as_slice())));
                    assert(entry_views(entries@) =~= before.push((key@, value@)));
                },
            }
        }
        i += 1;
    }
    assert(all.take(ls@.len() as int) =~= all);
    let store: KeyedStore<String> = KeyedStore::from_entries(entries);
    let pairs = store.pairs();
    proof {
        assert(entry_views(pairs@) == store.entries());
    }
    Ok(pairs)
}

/// A tool as the service lists it.
#[derive(Debug, Clone)]
pub struct ListedTool {
    pub name: String,
    pub title: String,
    pub description: String,
    /// The tool's input schema, as JSON text.
    pub input_schema: String,
}

/// The choices made for each tool on the last run: whether it is enabled and whether it
/// runs without asking; the last tool of a name wins.
pub open spec fn tool_preferences(tools: Seq<ToolView>) -> Map<Seq<char>, (bool, bool)> {
    map_of(Seq::new(tools.len(), |i: int| (tools[i].name, (tools[i].enabled, tools[i].auto_approve))))
}

/// The tools found now, each with the choices made for its name on the last run, or
/// enabled and asking where there were none.
pub open spec fn merged_tools(existing: Option<Seq<ToolView>>, listed: Seq<ListedTool>) -> Seq<ToolView> {
    let prefs = match existing {
        Some(t) => tool_preferences(t),
        None => Map::empty(),
    };
    Seq::new(
        listed.len(),
        |i: int|
            {
                let name = listed[i].name@;
                let (enabled, auto_approve) = if prefs.contains_key(name) {
                    prefs[name]
                } else {
                    (true, false)
                };
                ToolView {
                    name,
                    title: listed[i].title@,
                    description: listed[i].description@,
                    input_schema: listed[i].input_schema@,
                    enabled,
                    auto_approve,
                }
            },
    )
}

pub open spec fn tool_views(v: Seq<McpDiscoveredTool>) -> Seq<ToolView> {
    Seq::new(v.len(), |i: int| v[i]@)
}

fn preference_for(tools: &Vec<McpDiscoveredTool>, name: &String) -> (r: (bool, bool))
    ensures
        ({
            let prefs = tool_preferences(tool_views(tools@));
            r == if prefs.contains_key(name@) { prefs[name@] } else { (true, false) }
        }),
{
    let ghost pv = Seq::new(tools@.len(), |i: int| (tool_views(tools@)[i].name, (tool_views(tools@)[i].enabled, tool_views(tools@)[i].auto_approve)));
    let n = chars_of(name.as_str());
    let mut i: usize = tools.len();
    while i > 0
        invariant
            i <= tools@.len(),
            n@ == name@,
            pv.len() == tools@.len(),
            pv == Seq::new(tools@.len(), |q: int| (tool_views(tools@)[q].name, (tool_views(tools@)[q].enabled, tool_views(tools@)[q].auto_approve))),
            forall|j: int| i <= j < tools@.len() ==> #[trigger] pv[j].0 != name@,
        decreases i,
    {
        let t = &tools[i - 1];
        assert(pv[i - 1].0 == t.name@);
        if seq_eq(chars_of(t.name.as_str()).as_slice(), n.as_slice()) {
            proof {
                crate::store::keyed::lemma_map_of_last(pv, i - 1);
            }
            return (t.enabled, t.auto_approve);
        }
        i -= 1;
    }
    proof {
        crate::store::keyed::lemma_map_of_contains(pv, name@);
    }
    (true, false)
}

/// Gives each listed tool the choices made for it on the last run.
pub fn merge_tool_preferences(existing: Option<&McpServiceDiscovery>, tools: Vec<ListedTool>) -> (r: Vec<McpDiscoveredTool>)
    ensures
        tool_views(r@) == merged_tools(
            match existing { Some(d) => Some(tool_views(d.tools@)), None => None },
            tools@,
        ),
{
    let empty: Vec<McpDiscoveredTool> = Vec::new();
    let previous: &Vec<McpDiscoveredTool> = match existing {
        Some(d) => &d.tools,
        None => &empty,
    };
    proof {
        assert(tool_views(empty@) =~= Seq::<ToolView>::empty());
        let pv = Seq::new(0, |i: int| (Seq::<char>::empty(), (true, false)));
        assert(tool_preferences(Seq::<ToolView>::empty()) =~= Map::<Seq<char>, (bool, bool)>::empty()) by {
            assert(Seq::new(Seq::<ToolView>::empty().len(), |i: int| (Seq::<ToolView>::empty()[i].name, (Seq::<ToolView>::empty()[i].enabled, Seq::<ToolView>::empty()[i].auto_approve))) =~= Seq::<(Seq<char>, (bool, bool))>::empty());
        }
    }
    let mut r: Vec<McpDiscoveredTool> = Vec::new();
    let mut i: usize = 0;
    while i < tools.len()
        invariant
            i <= tools@.len(),
            r@.len() == i,
            tool_views(previous@) == match existing { Some(d) => tool_views(d.tools@), None => Seq::<ToolView>::empty() },
            forall|j: int| 0 <= j < i ==> #[trigger] r@[j]@ == merged_tools(
                match existing { Some(d) => Some(tool_views(d.tools@)), None => None },
                tools@,
            )[j],
        decreases tools@.len() - i,
    {
        let t = &tools[i];
        let (enabled, auto_approve) = preference_for(previous, &t.name);
        r.push(McpDiscoveredTool {
            name: t.name.clone(),
            title: t.title.clone(),
            description: t.description.clone(),
            input_schema: t.input_schema.clone(),
            enabled,
            auto_approve,
        });
        i += 1;
    }
    assert(tool_views(r@) =~= merged_tools(
        match existing { Some(d) => Some(tool_views(d.tools@)), None => None },
        tools@,
    ));
    r
}

/// The timeout of a discovery run: at least one second.
pub fn effective_timeout_seconds(timeout_seconds: u64) -> (r: u64)
    ensures
        r == if timeout_seconds < 1 { 1 } else { timeout_seconds },
{
    if timeout_seconds < 1 { 1 } else { timeout_seconds }
}

/// `连接超时（>{seconds} 秒）`.
pub fn timeout_message(seconds: u64) -> (r: String)
    ensures
        r@ == "连接超时（>"@ + dec(seconds as nat) + " 秒）"@,
{
    let mut out = chars_of("连接超时（>");
    push_dec(&mut out, seconds);
    push_str(&mut out, " 秒）");
    string_of(out.as_slice())
}

/// An error of a local service with what it wrote to its error output, when that is not
/// blank.
pub open spec fn error_with_stderr(error: Seq<char>, stderr: Option<Seq<char>>) -> Seq<char> {
    match stderr {
        Some(out) => if trim(out).len() > 0 {
            error + "\nSTDERR: "@ + trim(out)
        } else {
            error
        },
        None => error,
    }
}

/// Adds the error output of a local service to an error.
pub fn append_stderr(error: String, stderr: Option<String>) -> (r: String)
    ensures
        r@ == error_with_stderr(error@, match stderr { Some(s) => Some(s@), None => None }),
{
    match stderr {
        Some(out) => {
            let t = trimmed(chars_of(out.as_str()).as_slice());
            if t.len() > 0 {
                let mut msg = chars_of(error.as_str());
                push_str(&mut msg, "\nSTDERR: ");
                push_all(&mut msg, t.as_slice());
                string_of(msg.as_slice())
            } else {
                error
            }
        },
        None => error,
    }
}

} // verus!
