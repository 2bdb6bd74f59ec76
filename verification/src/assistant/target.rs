//! Choosing the model a request goes to: the default-model setting stored under a key, and
//! the provider setting it names, which must be enabled and have credentials.
use vstd::prelude::*;
use crate::models::default_model::{DefaultModelSetting, DefaultModelView};
use crate::models::model_config::{ProviderSetting, ProviderSettingView};
use crate::numbers::{is_float_literal, u64_of, parse_u64, is_float_text};
use crate::text::{trim, trimmed, chars_of, push_str, string_of};

verus! {

/// `i` is the first position whose key is `key`.
pub open spec fn is_first_key(keys: Seq<Seq<char>>, key: Seq<char>, i: int) -> bool {
    &&& 0 <= i < keys.len()
    &&& keys[i] == key
    &&& forall|j: int| 0 <= j < i ==> keys[j] != key
}

/// Position of the first occurrence of `key`, as `Iterator::find` meets it.
pub open spec fn first_key(keys: Seq<Seq<char>>, key: Seq<char>) -> Option<int> {
    if exists|i: int| is_first_key(keys, key, i) {
        Some(choose|i: int| is_first_key(keys, key, i))
    } else {
        None
    }
}

pub proof fn lemma_first_key_unique(keys: Seq<Seq<char>>, key: Seq<char>, i: int)
    requires
        is_first_key(keys, key, i),
    ensures
        first_key(keys, key) == Some(i),
{
    let k = choose|k: int| is_first_key(keys, key, k);
    assert(is_first_key(keys, key, k));
    if k < i {
        assert(keys[k] != key);
    }
    if i < k {
        assert(keys[i] != key);
    }
}

pub proof fn lemma_first_key_none(keys: Seq<Seq<char>>, key: Seq<char>)
    requires
        forall|j: int| 0 <= j < keys.len() ==> keys[j] != key,
    ensures
        first_key(keys, key) is None,
{
}

pub open spec fn default_keys(d: Seq<DefaultModelView>) -> Seq<Seq<char>> {
    Seq::new(d.len(), |i: int| d[i].key)
}

pub open spec fn provider_ids(p: Seq<ProviderSettingView>) -> Seq<Seq<char>> {
    Seq::new(p.len(), |i: int| p[i].provider_id)
}

pub open spec fn default_views(v: Seq<DefaultModelSetting>) -> Seq<DefaultModelView> {
    Seq::new(v.len(), |i: int| v[i]@)
}

pub open spec fn provider_views(v: Seq<ProviderSetting>) -> Seq<ProviderSettingView> {
    Seq::new(v.len(), |i: int| v[i]@)
}

/// Why no model could be chosen.
#[derive(Debug, Clone, Copy, PartialEq, Eq, Structural)]
pub enum LookupFailure {
    /// No default-model setting under the key.
    NoDefault,
    /// No provider setting for the provider the default names.
    NoProvider,
    /// The provider is disabled.
    Disabled,
    /// The provider's API key is blank.
    NoApiKey,
    /// The provider's base URL is blank.
    NoBaseUrl,
}

/// The default setting under `key` and the provider it names, by position, or why not.
pub open spec fn lookup(
    d: Seq<DefaultModelView>,
    p: Seq<ProviderSettingView>,
    key: Seq<char>,
) -> Result<(int, int), LookupFailure> {
    match first_key(default_keys(d), key) {
        None => Err(LookupFailure::NoDefault),
        Some(i) => match first_key(provider_ids(p), d[i].provider_id) {
            None => Err(LookupFailure::NoProvider),
            Some(j) => if !p[j].enabled {
                Err(LookupFailure::Disabled)
            } else if trim(p[j].api_key).len() == 0 {
                Err(LookupFailure::NoApiKey)
            } else if trim(p[j].base_url).len() == 0 {
                Err(LookupFailure::NoBaseUrl)
            } else {
                Ok((i, j))
            },
        },
    }
}

fn find_default(d: &[DefaultModelSetting], key: &str) -> (r: Option<usize>)
    ensures
        match r {
            Some(i) => first_key(default_keys(default_views(d@)), key@) == Some(i as int),
            None => first_key(default_keys(default_views(d@)), key@) is None,
        },
{
    let ghost keys = default_keys(default_views(d@));
    let k = chars_of(key);
    let mut i: usize = 0;
    while i < d.len()
        invariant
            i <= d.len(),
            k@ == key@,
            keys == default_keys(default_views(d@)),
            forall|j: int| 0 <= j < i ==> keys[j] != key@,
        decreases d.len() - i,
    {
        let here = chars_of(d[i].key.as_str());
        assert(keys[i as int] == d@[i as int].key@);
        if crate::text::seq_eq(here.as_slice(), k.as_slice()) {
            proof { lemma_first_key_unique(keys, key@, i as int); }
            return Some(i);
        }
        i += 1;
    }
    None
}

fn find_provider(p: &[ProviderSetting], id: &str) -> (r: Option<usize>)
    ensures
        match r {
            Some(i) => first_key(provider_ids(provider_views(p@)), id@) == Some(i as int),
            None => first_key(provider_ids(provider_views(p@)), id@) is None,
        },
{
    let ghost ids = provider_ids(provider_views(p@));
    let k = chars_of(id);
    let mut i: usize = 0;
    while i < p.len()
        invariant
            i <= p.len(),
            k@ == id@,
            ids == provider_ids(provider_views(p@)),
            forall|j: int| 0 <= j < i ==> ids[j] != id@,
        decreases p.len() - i,
    {
        let here = chars_of(p[i].provider_id.as_str());
        assert(ids[i as int] == p@[i as int].provider_id@);
        if crate::text::seq_eq(here.as_slice(), k.as_slice()) {
            proof { lemma_first_key_unique(ids, id@, i as int); }
            return Some(i);
        }
        i += 1;
    }
    None
}

fn is_blank(s: &str) -> (r: bool)
    ensures
        r == (trim(s@).len() == 0),
{
    let c = chars_of(s);
    let t = trimmed(c.as_slice());
    t.len() == 0
}

/// Finds the default-model setting stored under `key` and the enabled, credentialed provider
/// setting it names; the first of each wins where several match.
pub fn lookup_model(
    defaults: &[DefaultModelSetting],
    providers: &[ProviderSetting],
    key: &str,
) -> (r: Result<(usize, usize), LookupFailure>)
    ensures
        match lookup(default_views(defaults@), provider_views(providers@), key@) {
            Ok((i, j)) => r == Ok::<(usize, usize), LookupFailure>((i as usize, j as usize)),
            Err(f) => r == Err::<(usize, usize), LookupFailure>(f),
        },
        r is Ok ==> r->Ok_0.0 < defaults@.len() && r->Ok_0.1 < providers@.len(),
{
    let i = match find_default(defaults, key) {
        Some(i) => i,
        None => {
            return Err(LookupFailure::NoDefault);
        },
    };
    assert(default_views(defaults@)[i as int].provider_id == defaults@[i as int].provider_id@);
    let j = match find_provider(providers, defaults[i].provider_id.as_str()) {
        Some(j) => j,
        None => {
            return Err(LookupFailure::NoProvider);
        },
    };
    let p = &providers[j];
    assert(provider_views(providers@)[j as int] == p@);
    if !p.enabled {
        return Err(LookupFailure::Disabled);
    }
    if is_blank(p.api_key.as_str()) {
        return Err(LookupFailure::NoApiKey);
    }
    if is_blank(p.base_url.as_str()) {
        return Err(LookupFailure::NoBaseUrl);
    }
    Ok((i, j))
}

/// `field` followed by ` 格式不正确`.
pub open spec fn format_error(field: Seq<char>) -> Seq<char> {
    field + " 格式不正确"@
}

fn format_error_text(field: &str) -> (r: String)
    ensures
        r@ == format_error(field@),
{
    let mut out = chars_of(field);
    push_str(&mut out, " 格式不正确");
    string_of(out.as_slice())
}

/// An optional unsigned integer setting: blank means unset.
pub open spec fn optional_u64(value: Seq<char>, field: Seq<char>) -> Result<Option<u64>, Seq<char>> {
    let t = trim(value);
    if t.len() == 0 {
        Ok(None)
    } else {
        match u64_of(t) {
            Some(n) => Ok(Some(n)),
            None => Err(format_error(field)),
        }
    }
}

/// Reads an optional unsigned integer setting; blank means unset.
pub fn parse_optional_u64(value: &str, field: &str) -> (r: Result<Option<u64>, String>)
    ensures
        match optional_u64(value@, field@) {
            Ok(v) => r == Ok::<Option<u64>, String>(v),
            Err(e) => r is Err && r->Err_0@ == e,
        },
{
    let c = chars_of(value);
    let t = trimmed(c.as_slice());
    if t.len() == 0 {
        return Ok(None);
    }
    match parse_u64(t.as_slice()) {
        Some(n) => Ok(Some(n)),
        None => Err(format_error_text(field)),
    }
}

/// An optional floating-point setting, kept as its trimmed text once `f64::from_str` would
/// accept it: blank means unset.
pub open spec fn optional_float(value: Seq<char>, field: Seq<char>) -> Result<Option<Seq<char>>, Seq<char>> {
    let t = trim(value);
    if t.len() == 0 {
        Ok(None)
    } else if is_float_literal(t) {
        Ok(Some(t))
    } else {
        Err(format_error(field))
    }
}

pub open spec fn opt_text(v: Option<String>) -> Option<Seq<char>> {
    match v {
        Some(s) => Some(s@),
        None => None,
    }
}

/// Checks an optional floating-point setting and returns its trimmed text.
pub fn parse_optional_float(value: &str, field: &str) -> (r: Result<Option<String>, String>)
    ensures
        match optional_float(value@, field@) {
            Ok(v) => r is Ok && opt_text(r->Ok_0) == v,
            Err(e) => r is Err && r->Err_0@ == e,
        },
{
    let c = chars_of(value);
    let t = trimmed(c.as_slice());
    if t.len() == 0 {
        return Ok(None);
    }
    if is_float_text(t.as_slice()) {
        Ok(Some(string_of(t.as_slice())))
    } else {
        Err(format_error_text(field))
    }
}

/// `provider_id` and the words after it.
pub fn provider_message(provider_id: &str, rest: &str) -> (r: String)
    ensures
        r@ == provider_id@ + rest@,
{
    let mut out = chars_of(provider_id);
    push_str(&mut out, rest);
    string_of(out.as_slice())
}

/// `未找到 {provider_id} 的模型服务配置`.
pub open spec fn no_provider_message(provider_id: Seq<char>) -> Seq<char> {
    "未找到 "@ + provider_id + " 的模型服务配置"@
}

pub fn no_provider_text(provider_id: &str) -> (r: String)
    ensures
        r@ == no_provider_message(provider_id@),
{
    let mut out = chars_of("未找到 ");
    push_str(&mut out, provider_id);
    push_str(&mut out, " 的模型服务配置");
    string_of(out.as_slice())
}

/// The message for a failed lookup; `missing_default` and `disabled_suffix` are what each
/// caller says when no default is set and when the provider is disabled.
pub open spec fn lookup_message(
    f: LookupFailure,
    default_provider: Seq<char>,
    provider_id: Seq<char>,
    missing_default: Seq<char>,
    disabled_suffix: Seq<char>,
) -> Seq<char> {
    match f {
        LookupFailure::NoDefault => missing_default,
        LookupFailure::NoProvider => no_provider_message(default_provider),
        LookupFailure::Disabled => provider_id + disabled_suffix,
        LookupFailure::NoApiKey => provider_id + " 的 API Key 不能为空"@,
        LookupFailure::NoBaseUrl => provider_id + " 的 Base URL 不能为空"@,
    }
}

/// Builds the message for a failed lookup.
pub fn lookup_failure_text(
    defaults: &[DefaultModelSetting],
    providers: &[ProviderSetting],
    key: &str,
    f: LookupFailure,
    missing_default: &str,
    disabled_suffix: &str,
) -> (r: String)
    requires
        lookup(default_views(defaults@), provider_views(providers@), key@) == Err::<(int, int), LookupFailure>(f),
    ensures
        ({
            let d = default_views(defaults@);
            let p = provider_views(providers@);
            let i = first_key(default_keys(d), key@)->Some_0;
            let j = first_key(provider_ids(p), d[i].provider_id)->Some_0;
            r@ == lookup_message(f, d[i].provider_id, p[j].provider_id, missing_default@, disabled_suffix@)
        }),
{
    match f {
        LookupFailure::NoDefault => string_of(chars_of(missing_default).as_slice()),
        LookupFailure::NoProvider => {
            let i = find_default(defaults, key).unwrap();
            assert(default_views(defaults@)[i as int].provider_id == defaults@[i as int].provider_id@);
            no_provider_text(defaults[i].provider_id.as_str())
        },
        _ => {
            let i = find_default(defaults, key).unwrap();
            assert(default_views(defaults@)[i as int].provider_id == defaults@[i as int].provider_id@);
            let j = find_provider(providers, defaults[i].provider_id.as_str()).unwrap();
            assert(provider_views(providers@)[j as int].provider_id == providers@[j as int].provider_id@);
            let pid = providers[j].provider_id.as_str();
            match f {
                LookupFailure::Disabled => provider_message(pid, disabled_suffix),
                LookupFailure::NoApiKey => provider_message(pid, " 的 API Key 不能为空"),
                _ => provider_message(pid, " 的 Base URL 不能为空"),
            }
        },
    }
}

} // verus!
