//! Request preparation: `{{variable}}` substitution, URL building, query and form
//! encoding and the default `Content-Type`. Nothing here touches the network.
use vstd::prelude::*;
use vstd::string::StrSliceExecFns;
use vstd::utf8::encode_utf8;
use crate::text::{chars_of, string_of, trim, trimmed, slice_of, push_all, join, join_with, views, lower, to_lower, eq_str, has_suffix, ends_with_str, occ_from, find_occ, lemma_occ_from_bounds};
use crate::models::api_client::{KeyValueRow, ApiEnvironment, RequestSnapshot, BodyKind, normalize_method, supported_method, method_key, default_content_type_of, row_view, rows_view};
use crate::api_http::url_ops::{ParsedUrl, UrlView, url_parse, url_join, url_with_query, form_encoded, json_error, pair_views, parse_url, join_url, append_query_pairs, form_urlencode, json_syntax_error};

verus! {

/// Why a request cannot be prepared.
#[derive(Debug, Clone, PartialEq, Eq)]
pub enum PrepareError {
    /// Variables used but not defined, each once, in the order of first use.
    MissingVariables(Vec<String>),
    /// Any other rejection: method, URL, scheme or JSON syntax.
    Invalid(String),
}

pub ghost enum PrepareErrorSpec {
    MissingVariables(Seq<Seq<char>>),
    Invalid(Seq<char>),
}

pub open spec fn string_views(v: Seq<String>) -> Seq<Seq<char>> {
    Seq::new(v.len(), |i: int| v[i]@)
}

impl View for PrepareError {
    type V = PrepareErrorSpec;

    open spec fn view(&self) -> PrepareErrorSpec {
        match self {
            PrepareError::MissingVariables(names) => PrepareErrorSpec::MissingVariables(string_views(names@)),
            PrepareError::Invalid(m) => PrepareErrorSpec::Invalid(m@),
        }
    }
}

/// Text shown for an error.
pub open spec fn error_message(e: PrepareErrorSpec) -> Seq<char> {
    match e {
        PrepareErrorSpec::MissingVariables(names) => "存在未定义变量: "@ + join(names, ", "@),
        PrepareErrorSpec::Invalid(m) => m,
    }
}

fn char_vecs(v: &Vec<String>) -> (r: Vec<Vec<char>>)
    ensures
        views(r@) == string_views(v@),
{
    let mut r: Vec<Vec<char>> = Vec::new();
    for i in 0..v.len()
        invariant
            views(r@) == string_views(v@).take(i as int),
    {
        let ghost before = views(r@);
        r.push(chars_of(v[i].as_str()));
        assert(views(r@) =~= before.push(v@[i as int]@));
        assert(string_views(v@).take(i + 1) =~= string_views(v@).take(i as int).push(v@[i as int]@));
    }
    assert(string_views(v@).take(v@.len() as int) =~= string_views(v@));
    r
}

fn strings_of(v: &Vec<Vec<char>>) -> (r: Vec<String>)
    ensures
        string_views(r@) == views(v@),
{
    let mut r: Vec<String> = Vec::new();
    for i in 0..v.len()
        invariant
            string_views(r@) == views(v@).take(i as int),
    {
        let ghost before = string_views(r@);
        r.push(string_of(v[i].as_slice()));
        assert(string_views(r@) =~= before.push(v@[i as int]@));
        assert(views(v@).take(i + 1) =~= views(v@).take(i as int).push(v@[i as int]@));
    }
    assert(views(v@).take(v@.len() as int) =~= views(v@));
    r
}

impl PrepareError {
    pub fn message(&self) -> (r: String)
        ensures
            r@ == error_message(self@),
    {
        match self {
            PrepareError::MissingVariables(names) => {
                let mut m = chars_of("存在未定义变量: ");
                let parts = char_vecs(names);
                let joined = join_with(parts.as_slice(), ", ");
                push_all(&mut m, joined.as_slice());
                string_of(m.as_slice())
            },
            PrepareError::Invalid(m) => m.clone(),
        }
    }
}

/// An error converts into its text.
impl From<PrepareError> for String {
    fn from(error: PrepareError) -> (r: String)
        ensures
            r@ == error_message(error@),
    {
        error.message()
    }
}

/// Which `String` an error converts into is not fixed as a spec value: only its text is.
impl vstd::std_specs::convert::FromSpecImpl<PrepareError> for String {
    open spec fn obeys_from_spec() -> bool {
        false
    }

    open spec fn from_spec(error: PrepareError) -> String {
        choose|s: String| s@ == error_message(error@)
    }
}

/// Variables of an environment; a later definition of a name wins.
pub struct VariableScope {
    values: Vec<(String, String)>,
    base_url: String,
}

pub ghost struct ScopeView {
    pub entries: Seq<(Seq<char>, Seq<char>)>,
    pub base_url: Seq<char>,
}

impl View for VariableScope {
    type V = ScopeView;

    closed spec fn view(&self) -> ScopeView {
        ScopeView {
            entries: Seq::new(self.values@.len(), |i: int| (self.values@[i].0@, self.values@[i].1@)),
            base_url: self.base_url@,
        }
    }
}

/// Value of the last entry named `name`.
pub open spec fn scope_get(entries: Seq<(Seq<char>, Seq<char>)>, name: Seq<char>) -> Option<Seq<char>>
    decreases entries.len(),
{
    if entries.len() == 0 {
        None
    } else if entries.last().0 == name {
        Some(entries.last().1)
    } else {
        scope_get(entries.drop_last(), name)
    }
}

/// Enabled variables with a non-blank (trimmed) name, in order.
pub open spec fn env_entries(rows: Seq<KeyValueRow>) -> Seq<(Seq<char>, Seq<char>)>
    decreases rows.len(),
{
    if rows.len() == 0 {
        Seq::empty()
    } else {
        let r = env_entries(rows.drop_last());
        let row = rows.last();
        if row.enabled && trim(row.key@).len() > 0 {
            r.push((trim(row.key@), row.value@))
        } else {
            r
        }
    }
}

/// Scope of an optional environment: its trimmed base URL, defined as `base_url` when not
/// blank, then its variables.
pub open spec fn scope_of(env: Option<ApiEnvironment>) -> ScopeView {
    match env {
        None => ScopeView { entries: Seq::empty(), base_url: Seq::empty() },
        Some(e) => {
            let b = trim(e.base_url@);
            ScopeView {
                entries: (if b.len() > 0 {
                    seq![("base_url"@, b)]
                } else {
                    Seq::empty()
                }) + env_entries(e.variables@),
                base_url: b,
            }
        },
    }
}

impl VariableScope {
    pub fn from_environment(environment: Option<&ApiEnvironment>) -> (r: Self)
        ensures
            r@ == scope_of(
                match environment {
                    Some(e) => Some(*e),
                    None => None,
                },
            ),
    {
        let mut values: Vec<(String, String)> = Vec::new();
        let mut base_url = String::new();
        let ghost start: Seq<(Seq<char>, Seq<char>)> = Seq::empty();
        match environment {
            None => {},
            Some(e) => {
                let bv = trimmed(chars_of(e.base_url.as_str()).as_slice());
                base_url = string_of(bv.as_slice());
                if bv.len() > 0 {
                    values.push(("base_url".to_owned(), base_url.clone()));
                }
                proof {
                    start = Seq::new(values@.len(), |i: int| (values@[i].0@, values@[i].1@));
                }
                for i in 0..e.variables.len()
                    invariant
                        Seq::new(values@.len(), |k: int| (values@[k].0@, values@[k].1@)) == start
                            + env_entries(e.variables@.take(i as int)),
                {
                    let row = &e.variables[i];
                    assert(e.variables@.take(i + 1).drop_last() =~= e.variables@.take(i as int));
                    let kv = trimmed(chars_of(row.key.as_str()).as_slice());
                    let ghost before = Seq::new(values@.len(), |k: int| (values@[k].0@, values@[k].1@));
                    if row.enabled && kv.len() > 0 {
                        values.push((string_of(kv.as_slice()), row.value.clone()));
                        assert(Seq::new(values@.len(), |k: int| (values@[k].0@, values@[k].1@)) =~= before.push(
                            (kv@, row.value@),
                        ));
                    }
                }
                assert(e.variables@.take(e.variables@.len() as int) =~= e.variables@);
            },
        }
        let r = VariableScope { values, base_url };
        assert(r@.entries =~= scope_of(
            match environment {
                Some(e) => Some(*e),
                None => None,
            },
        ).entries);
        r
    }

    pub fn base_url(&self) -> (r: &str)
        ensures
            r@ == self@.base_url,
    {
        self.base_url.as_str()
    }

    pub fn get(&self, name: &str) -> (r: Option<&String>)
        ensures
            match scope_get(self@.entries, name@) {
                Some(v) => r is Some && r->0@ == v,
                None => r is None,
            },
    {
        let nv = chars_of(name);
        let ghost entries = self@.entries;
        let mut i = self.values.len();
        assert(entries.take(i as int) =~= entries);
        while i > 0
            invariant
                i <= self.values@.len(),
                entries == self@.entries,
                entries.len() == self.values@.len(),
                nv@ == name@,
                scope_get(entries, name@) == scope_get(entries.take(i as int), name@),
            decreases i,
        {
            assert(entries.take(i as int).drop_last() =~= entries.take(i - 1));
            assert(entries.take(i as int).last() == (self.values@[i - 1].0@, self.values@[i - 1].1@));
            let k = chars_of(self.values[i - 1].0.as_str());
            if crate::text::seq_eq(k.as_slice(), nv.as_slice()) {
                return Some(&self.values[i - 1].1);
            }
            i -= 1;
        }
        None
    }
}

/// Substitution of `{{name}}` placeholders from `pos` on, with the output and the missing
/// names gathered so far: text before a placeholder is kept, a defined name is replaced by
/// its value, an undefined one by nothing and noted once; an unclosed `{{` and everything
/// after it are kept as they are.
pub open spec fn resolve_acc(
    s: Seq<char>,
    pos: int,
    entries: Seq<(Seq<char>, Seq<char>)>,
    out: Seq<char>,
    miss: Seq<Seq<char>>,
) -> (Seq<char>, Seq<Seq<char>>)
    decreases s.len() - pos,
{
    if pos < 0 || pos > s.len() {
        (out, miss)
    } else {
        match occ_from(s, "{{"@, pos) {
            None => (out + s.subrange(pos, s.len() as int), miss),
            Some(start) => match occ_from(s, "}}"@, start + 2) {
                None => (out + s.subrange(pos, s.len() as int), miss),
                Some(end) => {
                    proof {
                        lemma_occ_from_bounds(s, "{{"@, pos);
                        lemma_occ_from_bounds(s, "}}"@, start + 2);
                        reveal_strlit("}}");
                    }
                    let name = trim(s.subrange(start + 2, end));
                    let v = scope_get(entries, name);
                    let out2 = out + s.subrange(pos, start) + (match v {
                        Some(x) => x,
                        None => Seq::empty(),
                    });
                    let miss2 = if v is None && !miss.contains(name) {
                        miss.push(name)
                    } else {
                        miss
                    };
                    resolve_acc(s, end + 2, entries, out2, miss2)
                },
            },
        }
    }
}

/// Substituted text and missing names of `s`.
pub open spec fn resolution(s: Seq<char>, entries: Seq<(Seq<char>, Seq<char>)>) -> (Seq<char>, Seq<Seq<char>>) {
    resolve_acc(s, 0, entries, Seq::empty(), Seq::empty())
}

fn resolution_exec(s: &[char], scope: &VariableScope) -> (r: (Vec<char>, Vec<Vec<char>>))
    ensures
        (r.0@, views(r.1@)) == resolution(s@, scope@.entries),
{
    proof {
        reveal_strlit("{{");
        reveal_strlit("}}");
    }
    let open = chars_of("{{");
    let close = chars_of("}}");
    let mut out: Vec<char> = Vec::new();
    let mut miss: Vec<Vec<char>> = Vec::new();
    let mut pos: usize = 0;
    let n = s.len();
    assert(views(miss@) =~= Seq::<Seq<char>>::empty());
    assert(out@ =~= Seq::<char>::empty());
    loop
        invariant
            n == s@.len(),
            open@ == "{{"@,
            close@ == "}}"@,
            pos <= s@.len(),
            resolution(s@, scope@.entries) == resolve_acc(s@, pos as int, scope@.entries, out@, views(miss@)),
        decreases s@.len() - pos,
    {
        proof {
            reveal_strlit("{{");
            reveal_strlit("}}");
        }
        let start = match find_occ(s, open.as_slice(), pos) {
            Some(st) => st,
            None => {
                let rest = slice_of(s, pos, s.len());
                push_all(&mut out, rest.as_slice());
                return (out, miss);
            },
        };
        proof {
            lemma_occ_from_bounds(s@, "{{"@, pos as int);
        }
        let end = match find_occ(s, close.as_slice(), start + 2) {
            Some(e) => e,
            None => {
                let rest = slice_of(s, pos, s.len());
                push_all(&mut out, rest.as_slice());
                return (out, miss);
            },
        };
        proof {
            lemma_occ_from_bounds(s@, "}}"@, start + 2);
        }
        let nv = trimmed(slice_of(s, start + 2, end).as_slice());
        let before = slice_of(s, pos, start);
        push_all(&mut out, before.as_slice());
        let name = string_of(nv.as_slice());
        let ghost old_miss = views(miss@);
        match scope.get(name.as_str()) {
            Some(v) => {
                push_all(&mut out, chars_of(v.as_str()).as_slice());
            },
            None => {
                let mut seen = false;
                let mut j: usize = 0;
                while j < miss.len()
                    invariant
                        j <= miss@.len(),
                        seen == exists|k: int| 0 <= k < j && views(miss@)[k] == nv@,
                    decreases miss@.len() - j,
                {
                    assert(views(miss@)[j as int] == miss@[j as int]@);
                    if crate::text::seq_eq(miss[j].as_slice(), nv.as_slice()) {
                        seen = true;
                    }
                    j += 1;
                }
                if !seen {
                    miss.push(nv);
                    assert(views(miss@) =~= old_miss.push(nv@));
                }
            },
        }
        pos = end + 2;
    }
}

/// `{{name}}` substitution; fails listing the undefined names.
pub open spec fn resolved(s: Seq<char>, entries: Seq<(Seq<char>, Seq<char>)>) -> Result<Seq<char>, Seq<Seq<char>>> {
    let (out, miss) = resolution(s, entries);
    if miss.len() == 0 {
        Ok(out)
    } else {
        Err(miss)
    }
}

/// Replaces `{{name}}` placeholders with the scope's values.
pub fn resolve_variables(input: &str, scope: &VariableScope) -> (r: Result<String, PrepareError>)
    ensures
        match resolved(input@, scope@.entries) {
            Ok(out) => r is Ok && r->Ok_0@ == out,
            Err(names) => r is Err && r->Err_0@ == PrepareErrorSpec::MissingVariables(names),
        },
{
    let (out, miss) = resolution_exec(chars_of(input).as_slice(), scope);
    if miss.len() == 0 {
        Ok(string_of(out.as_slice()))
    } else {
        Err(PrepareError::MissingVariables(strings_of(&miss)))
    }
}

/// `names` added to `m`, each unless already there.
pub open spec fn merge_missing(m: Seq<Seq<char>>, names: Seq<Seq<char>>) -> Seq<Seq<char>>
    decreases names.len(),
{
    if names.len() == 0 {
        m
    } else {
        let m2 = merge_missing(m, names.drop_last());
        if m2.contains(names.last()) {
            m2
        } else {
            m2.push(names.last())
        }
    }
}

fn add_name(missing: &mut Vec<Vec<char>>, name: &Vec<char>)
    ensures
        views(final(missing)@) == if views(old(missing)@).contains(name@) {
            views(old(missing)@)
        } else {
            views(old(missing)@).push(name@)
        },
{
    let mut j: usize = 0;
    while j < missing.len()
        invariant
            j <= missing@.len(),
            missing@ == old(missing)@,
            forall|k: int| 0 <= k < j ==> views(missing@)[k] != name@,
        decreases missing@.len() - j,
    {
        assert(views(missing@)[j as int] == missing@[j as int]@);
        if crate::text::seq_eq(missing[j].as_slice(), name.as_slice()) {
            return;
        }
        j += 1;
    }
    let ghost before = views(missing@);
    missing.push(crate::text::copy_chars(name));
    assert(views(missing@) =~= before.push(name@));
}

fn merge_exec(missing: &mut Vec<Vec<char>>, names: &Vec<Vec<char>>)
    ensures
        views(final(missing)@) == merge_missing(views(old(missing)@), views(names@)),
{
    let ghost start = views(missing@);
    for i in 0..names.len()
        invariant
            views(missing@) == merge_missing(start, views(names@).take(i as int)),
    {
        assert(views(names@).take(i + 1).drop_last() =~= views(names@).take(i as int));
        assert(views(names@).take(i + 1).last() == names@[i as int]@);
        add_name(missing, &names[i]);
    }
    assert(views(names@).take(names@.len() as int) =~= views(names@));
}

/// Enabled rows with `{{name}}` substituted in key and value (a part that fails keeps its
/// text); every undefined name is added to the missing names.
pub open spec fn resolved_rows(
    rows: Seq<KeyValueRow>,
    entries: Seq<(Seq<char>, Seq<char>)>,
    missing: Seq<Seq<char>>,
) -> (Seq<(Seq<char>, bool, Seq<char>, Seq<char>)>, Seq<Seq<char>>)
    decreases rows.len(),
{
    if rows.len() == 0 {
        (Seq::empty(), missing)
    } else {
        let (out, m) = resolved_rows(rows.drop_last(), entries, missing);
        let row = rows.last();
        if !row.enabled {
            (out, m)
        } else {
            let (k, km) = resolution(row.key@, entries);
            let (v, vm) = resolution(row.value@, entries);
            let m2 = merge_missing(merge_missing(m, km), vm);
            let key = if km.len() == 0 { k } else { row.key@ };
            let value = if vm.len() == 0 { v } else { row.value@ };
            (out.push((row.id@, true, key, value)), m2)
        }
    }
}

fn resolve_part(text: &String, scope: &VariableScope, missing: &mut Vec<Vec<char>>) -> (r: String)
    ensures
        ({
            let (out, miss) = resolution(text@, scope@.entries);
            &&& r@ == if miss.len() == 0 { out } else { text@ }
            &&& views(final(missing)@) == merge_missing(views(old(missing)@), miss)
        }),
{
    let (out, miss) = resolution_exec(chars_of(text.as_str()).as_slice(), scope);
    merge_exec(missing, &miss);
    if miss.len() == 0 {
        string_of(out.as_slice())
    } else {
        text.clone()
    }
}

fn resolve_rows(rows: &[KeyValueRow], scope: &VariableScope, missing: &mut Vec<Vec<char>>) -> (r: Vec<KeyValueRow>)
    ensures
        (rows_view(r@), views(final(missing)@)) == resolved_rows(rows@, scope@.entries, views(old(missing)@)),
{
    let mut out: Vec<KeyValueRow> = Vec::new();
    let ghost start = views(missing@);
    assert(rows_view(out@) =~= Seq::<(Seq<char>, bool, Seq<char>, Seq<char>)>::empty());
    for i in 0..rows.len()
        invariant
            (rows_view(out@), views(missing@)) == resolved_rows(rows@.take(i as int), scope@.entries, start),
    {
        assert(rows@.take(i + 1).drop_last() =~= rows@.take(i as int));
        let row = &rows[i];
        if row.enabled {
            let key = resolve_part(&row.key, scope, missing);
            let value = resolve_part(&row.value, scope, missing);
            let ghost before = rows_view(out@);
            out.push(KeyValueRow { id: row.id.clone(), enabled: true, key, value });
            assert(rows_view(out@) =~= before.push(row_view(out@.last())));
        }
    }
    assert(rows@.take(rows@.len() as int) =~= rows@);
    out
}

/// Rows whose trimmed key is not blank, as (trimmed key, value) pairs.
pub open spec fn nonblank_pairs(rows: Seq<(Seq<char>, bool, Seq<char>, Seq<char>)>) -> Seq<(Seq<char>, Seq<char>)>
    decreases rows.len(),
{
    if rows.len() == 0 {
        Seq::empty()
    } else {
        let r = nonblank_pairs(rows.drop_last());
        let k = trim(rows.last().2);
        if k.len() > 0 {
            r.push((k, rows.last().3))
        } else {
            r
        }
    }
}

fn nonblank_pairs_exec(rows: &Vec<KeyValueRow>) -> (r: Vec<(String, String)>)
    ensures
        pair_views(r@) == nonblank_pairs(rows_view(rows@)),
{
    let mut out: Vec<(String, String)> = Vec::new();
    assert(pair_views(out@) =~= Seq::<(Seq<char>, Seq<char>)>::empty());
    for i in 0..rows.len()
        invariant
            pair_views(out@) == nonblank_pairs(rows_view(rows@).take(i as int)),
    {
        assert(rows_view(rows@).take(i + 1).drop_last() =~= rows_view(rows@).take(i as int));
        assert(rows_view(rows@).take(i + 1).last() == row_view(rows@[i as int]));
        let k = trimmed(chars_of(rows[i].key.as_str()).as_slice());
        if k.len() > 0 {
            let ghost before = pair_views(out@);
            out.push((string_of(k.as_slice()), rows[i].value.clone()));
            assert(pair_views(out@) =~= before.push((k@, rows@[i as int].value@)));
        }
    }
    assert(rows_view(rows@).take(rows@.len() as int) =~= rows_view(rows@));
    out
}

/// `s` without its leading `/` characters.
pub open spec fn strip_leading_slashes(s: Seq<char>) -> Seq<char>
    decreases s.len(),
{
    if s.len() > 0 && s[0] == '/' {
        strip_leading_slashes(s.drop_first())
    } else {
        s
    }
}

pub fn strip_leading_slashes_exec(s: &[char]) -> (r: Vec<char>)
    ensures
        r@ == strip_leading_slashes(s@),
{
    let mut i: usize = 0;
    assert(s@.skip(0) =~= s@);
    while i < s.len() && s[i] == '/'
        invariant
            i <= s@.len(),
            strip_leading_slashes(s@) == strip_leading_slashes(s@.skip(i as int)),
        decreases s@.len() - i,
    {
        assert(s@.skip(i as int).drop_first() =~= s@.skip(i + 1));
        i += 1;
    }
    assert(s@.subrange(i as int, s@.len() as int) =~= s@.skip(i as int));
    slice_of(s, i, s.len())
}

/// Target URL: an absolute URL with a host as it is; otherwise the reference resolved
/// against the base URL, given a trailing `/`.
pub open spec fn built_url(raw: Seq<char>, base_url: Seq<char>) -> Result<UrlView, Seq<char>> {
    let t = trim(raw);
    let b = trim(base_url);
    let bs = if has_suffix(b, "/"@) { b } else { b + "/"@ };
    if t.len() == 0 {
        Err("请求地址不能为空"@)
    } else if url_parse(t) is Ok && url_parse(t)->Ok_0.has_host {
        Ok(url_parse(t)->Ok_0)
    } else if b.len() == 0 {
        Err("相对地址需要所选环境提供基础地址"@)
    } else {
        match url_parse(bs) {
            Err(e) => Err("基础地址不合法: "@ + e),
            Ok(base) => match url_join(base.text, strip_leading_slashes(t)) {
                Ok(u) => Ok(u),
                Err(e) => Err("请求地址不合法: "@ + e),
            },
        }
    }
}

fn build_url(raw: &[char], base_url: &[char]) -> (r: Result<ParsedUrl, Vec<char>>)
    ensures
        match built_url(raw@, base_url@) {
            Ok(u) => r is Ok && r->Ok_0@ == u,
            Err(e) => r is Err && r->Err_0@ == e,
        },
{
    proof {
        reveal_strlit("/");
    }
    let t = trimmed(raw);
    if t.len() == 0 {
        return Err(chars_of("请求地址不能为空"));
    }
    let ts = string_of(t.as_slice());
    if let Ok(u) = parse_url(ts.as_str()) {
        if u.has_host() {
            return Ok(u);
        }
    }
    let b = trimmed(base_url);
    if b.len() == 0 {
        return Err(chars_of("相对地址需要所选环境提供基础地址"));
    }
    let mut bs = crate::text::copy_chars(&b);
    if !ends_with_str(b.as_slice(), "/") {
        bs.push('/');
        assert(bs@ =~= b@ + "/"@);
    }
    assert(bs@ == (if has_suffix(b@, "/"@) { b@ } else { b@ + "/"@ }));
    let base = match parse_url(string_of(bs.as_slice()).as_str()) {
        Ok(u) => u,
        Err(e) => {
            let mut m = chars_of("基础地址不合法: ");
            push_all(&mut m, chars_of(e.as_str()).as_slice());
            return Err(m);
        },
    };
    let reference = strip_leading_slashes_exec(t.as_slice());
    match join_url(&base, string_of(reference.as_slice()).as_str()) {
        Ok(u) => Ok(u),
        Err(e) => {
            let mut m = chars_of("请求地址不合法: ");
            push_all(&mut m, chars_of(e.as_str()).as_slice());
            Err(m)
        },
    }
}

/// Headers with the body kind's default `Content-Type` added when there is a body and no
/// header is named `content-type` in any case.
pub open spec fn with_content_type(
    headers: Seq<(Seq<char>, bool, Seq<char>, Seq<char>)>,
    kind: BodyKind,
    has_body: bool,
) -> Seq<(Seq<char>, bool, Seq<char>, Seq<char>)> {
    let already = exists|i: int| 0 <= i < headers.len() && lower(trim(headers[i].2)) == "content-type"@;
    match default_content_type_of(kind) {
        Some(ct) => if has_body && !already {
            headers.push((Seq::empty(), true, "Content-Type"@, ct))
        } else {
            headers
        },
        None => headers,
    }
}

fn with_default_content_type(headers: Vec<KeyValueRow>, kind: BodyKind, has_body: bool) -> (r: Vec<KeyValueRow>)
    ensures
        rows_view(r@) == with_content_type(rows_view(headers@), kind, has_body),
{
    if !has_body {
        return headers;
    }
    let default_value = match kind.default_content_type() {
        Some(v) => v,
        None => return headers,
    };
    let mut i: usize = 0;
    while i < headers.len()
        invariant
            i <= headers@.len(),
            forall|j: int| 0 <= j < i ==> lower(trim(#[trigger] rows_view(headers@)[j].2)) != "content-type"@,
        decreases headers@.len() - i,
    {
        let k = to_lower(trimmed(chars_of(headers[i].key.as_str()).as_slice()).as_slice());
        assert(rows_view(headers@)[i as int].2 == headers@[i as int].key@);
        if eq_str(k.as_slice(), "content-type") {
            return headers;
        }
        i += 1;
    }
    let mut headers = headers;
    let ghost before = rows_view(headers@);
    headers.push(KeyValueRow::new("Content-Type", default_value));
    assert(rows_view(headers@) =~= before.push((Seq::empty(), true, "Content-Type"@, default_content_type_of(kind)->0)));
    headers
}

/// A request ready to send: variables substituted, URL resolved, body encoded.
#[derive(Debug, Clone, PartialEq, Eq)]
pub struct PreparedRequest {
    pub method: String,
    pub url: String,
    pub headers: Vec<KeyValueRow>,
    pub body: Option<Vec<u8>>,
    /// Timeout in milliseconds, at least one.
    pub timeout_ms: u64,
}

pub ghost struct PreparedView {
    pub method: Seq<char>,
    pub url: Seq<char>,
    pub headers: Seq<(Seq<char>, bool, Seq<char>, Seq<char>)>,
    pub body: Option<Seq<u8>>,
    pub timeout_ms: u64,
}

impl View for PreparedRequest {
    type V = PreparedView;

    open spec fn view(&self) -> PreparedView {
        PreparedView {
            method: self.method@,
            url: self.url@,
            headers: rows_view(self.headers@),
            body: match self.body {
                Some(b) => Some(b@),
                None => None,
            },
            timeout_ms: self.timeout_ms,
        }
    }
}

/// Message of an unsupported method.
pub open spec fn method_error(key: Seq<char>) -> Seq<char> {
    if key.len() == 0 {
        "HTTP 方法不能为空"@
    } else {
        "不支持的 HTTP 方法: "@ + key
    }
}

/// Body text used by the request: the substituted text of a JSON or text body (empty
/// when a variable is missing), nothing for the other kinds.
pub open spec fn uses_text(kind: BodyKind) -> bool {
    kind == BodyKind::Json || kind == BodyKind::Text
}

/// Missing names after the URL, headers, query, body text and form rows, in that order,
/// with the resolved headers, query rows, body text and form rows.
pub open spec fn substitution(s: RequestSnapshot, entries: Seq<(Seq<char>, Seq<char>)>) -> (
    Seq<char>,
    Seq<(Seq<char>, bool, Seq<char>, Seq<char>)>,
    Seq<(Seq<char>, bool, Seq<char>, Seq<char>)>,
    Seq<char>,
    Seq<(Seq<char>, bool, Seq<char>, Seq<char>)>,
    Seq<Seq<char>>,
) {
    let (url_out, um) = resolution(s.url@, entries);
    let m1 = merge_missing(Seq::empty(), um);
    let (headers, m2) = resolved_rows(s.headers@, entries, m1);
    let (query, m3) = resolved_rows(s.query@, entries, m2);
    let (bt, bm) = resolution(s.body.text@, entries);
    let m4 = if uses_text(s.body.kind) { merge_missing(m3, bm) } else { m3 };
    let body_text = if uses_text(s.body.kind) && bm.len() == 0 { bt } else { Seq::empty() };
    let (form, m5) = if s.body.kind == BodyKind::Form {
        resolved_rows(s.body.form@, entries, m4)
    } else {
        (Seq::empty(), m4)
    };
    (if um.len() == 0 { url_out } else { Seq::empty() }, headers, query, body_text, form, m5)
}

/// Encoded body: none for no body, the form encoding or the text otherwise, and none when
/// that is empty.
pub open spec fn encoded_body(
    kind: BodyKind,
    body_text: Seq<char>,
    form: Seq<(Seq<char>, bool, Seq<char>, Seq<char>)>,
) -> Option<Seq<u8>> {
    if kind == BodyKind::NoBody {
        None
    } else if kind == BodyKind::Form {
        let enc = form_encoded(nonblank_pairs(form));
        if enc.len() == 0 { None } else { Some(encode_utf8(enc)) }
    } else {
        if body_text.len() == 0 { None } else { Some(encode_utf8(body_text)) }
    }
}

/// The request that a snapshot and an optional environment give, or why there is none.
pub open spec fn prepared(s: RequestSnapshot, env: Option<ApiEnvironment>) -> Result<PreparedView, PrepareErrorSpec> {
    let sc = scope_of(env);
    let mk = method_key(s.method@);
    let (raw_url, headers, query, body_text, form, missing) = substitution(s, sc.entries);
    let kind = s.body.kind;
    if !supported_method(mk) {
        Err(PrepareErrorSpec::Invalid(method_error(mk)))
    } else if missing.len() > 0 {
        Err(PrepareErrorSpec::MissingVariables(missing))
    } else if kind == BodyKind::Json && trim(body_text).len() > 0 && json_error(body_text) is Some {
        Err(PrepareErrorSpec::Invalid("请求体不是合法 JSON: "@ + json_error(body_text)->0))
    } else {
        match built_url(raw_url, sc.base_url) {
            Err(msg) => Err(PrepareErrorSpec::Invalid(msg)),
            Ok(u) => {
                let qp = nonblank_pairs(query);
                let u2 = if qp.len() > 0 { url_with_query(u.text, qp) } else { u };
                if u2.scheme != "http"@ && u2.scheme != "https"@ {
                    Err(PrepareErrorSpec::Invalid("只支持 HTTP 和 HTTPS，收到: "@ + u2.scheme))
                } else {
                    let body = encoded_body(kind, body_text, form);
                    Ok(
                        PreparedView {
                            method: mk,
                            url: u2.text,
                            headers: with_content_type(headers, kind, body is Some),
                            body,
                            timeout_ms: if s.timeout_ms >= 1 { s.timeout_ms } else { 1 },
                        },
                    )
                }
            },
        }
    }
}

fn substitute(s: &RequestSnapshot, scope: &VariableScope) -> (r: (
    Vec<char>,
    Vec<KeyValueRow>,
    Vec<KeyValueRow>,
    Vec<char>,
    Vec<KeyValueRow>,
    Vec<Vec<char>>,
))
    ensures
        (r.0@, rows_view(r.1@), rows_view(r.2@), r.3@, rows_view(r.4@), views(r.5@)) == substitution(
            *s,
            scope@.entries,
        ),
{
    let mut missing: Vec<Vec<char>> = Vec::new();
    assert(views(missing@) =~= Seq::<Seq<char>>::empty());
    let (url_out, um) = resolution_exec(chars_of(s.url.as_str()).as_slice(), scope);
    merge_exec(&mut missing, &um);
    let raw_url = if um.len() == 0 { url_out } else { Vec::new() };
    let headers = resolve_rows(s.headers.as_slice(), scope, &mut missing);
    let query = resolve_rows(s.query.as_slice(), scope, &mut missing);
    let (bt, bm) = resolution_exec(chars_of(s.body.text.as_str()).as_slice(), scope);
    let text_kind = s.body.kind == BodyKind::Json || s.body.kind == BodyKind::Text;
    if text_kind {
        merge_exec(&mut missing, &bm);
    }
    let body_text = if text_kind && bm.len() == 0 { bt } else { Vec::new() };
    let form = if s.body.kind == BodyKind::Form {
        resolve_rows(s.body.form.as_slice(), scope, &mut missing)
    } else {
        let e: Vec<KeyValueRow> = Vec::new();
        assert(rows_view(e@) =~= Seq::<(Seq<char>, bool, Seq<char>, Seq<char>)>::empty());
        e
    };
    (raw_url, headers, query, body_text, form, missing)
}

/// Builds the request to send from a saved request and the chosen environment: substitutes
/// variables, resolves the URL, appends the query, encodes the body and adds the default
/// `Content-Type`. Nothing is sent when it fails.
pub fn prepare_request(snapshot: &RequestSnapshot, environment: Option<&ApiEnvironment>) -> (r: Result<
    PreparedRequest,
    PrepareError,
>)
    ensures
        match prepared(
            *snapshot,
            match environment {
                Some(e) => Some(*e),
                None => None,
            },
        ) {
            Ok(p) => r is Ok && r->Ok_0@ == p,
            Err(e) => r is Err && r->Err_0@ == e,
        },
{
    let scope = VariableScope::from_environment(environment);
    let method = match normalize_method(snapshot.method.as_str()) {
        Ok(m) => m,
        Err(e) => return Err(PrepareError::Invalid(e)),
    };
    let (raw_url, headers, query, body_text, form, missing) = substitute(snapshot, &scope);
    if missing.len() > 0 {
        return Err(PrepareError::MissingVariables(strings_of(&missing)));
    }
    let kind = snapshot.body.kind;
    let body_string = string_of(body_text.as_slice());
    if kind == BodyKind::Json && trimmed(body_text.as_slice()).len() > 0 {
        if let Some(e) = json_syntax_error(body_string.as_str()) {
            let mut m = chars_of("请求体不是合法 JSON: ");
            push_all(&mut m, chars_of(e.as_str()).as_slice());
            return Err(PrepareError::Invalid(string_of(m.as_slice())));
        }
    }
    let url = match build_url(raw_url.as_slice(), chars_of(scope.base_url()).as_slice()) {
        Ok(u) => u,
        Err(e) => return Err(PrepareError::Invalid(string_of(e.as_slice()))),
    };
    let pairs = nonblank_pairs_exec(&query);
    let url = if pairs.len() > 0 { append_query_pairs(url, &pairs) } else { url };
    let scheme = chars_of(url.scheme().as_str());
    if !eq_str(scheme.as_slice(), "http") && !eq_str(scheme.as_slice(), "https") {
        let mut m = chars_of("只支持 HTTP 和 HTTPS，收到: ");
        push_all(&mut m, scheme.as_slice());
        return Err(PrepareError::Invalid(string_of(m.as_slice())));
    }
    let body: Option<Vec<u8>> = if kind == BodyKind::NoBody {
        None
    } else if kind == BodyKind::Form {
        let form_pairs = nonblank_pairs_exec(&form);
        let encoded = form_urlencode(&form_pairs);
        if encoded.as_str().unicode_len() == 0 {
            None
        } else {
            Some(encoded.as_str().as_bytes_vec())
        }
    } else {
        if body_text.len() == 0 {
            None
        } else {
            Some(body_string.as_str().as_bytes_vec())
        }
    };
    let headers = with_default_content_type(headers, kind, body.is_some());
    let timeout_ms = if snapshot.timeout_ms >= 1 { snapshot.timeout_ms } else { 1 };
    Ok(PreparedRequest { method, url: url.text().clone(), headers, body, timeout_ms })
}

/// `a` and `b` are the same text up to the case of ASCII letters.
pub open spec fn same_ignoring_ascii_case(a: Seq<char>, b: Seq<char>) -> bool {
    a.len() == b.len() && forall|i: int| 0 <= i < a.len() ==> crate::text::lower_char(#[trigger] a[i])
        == crate::text::lower_char(b[i])
}

proof fn lemma_names_content_type(k: Seq<char>)
    requires
        same_ignoring_ascii_case(trim(k), "content-type"@),
    ensures
        lower(trim(k)) == "content-type"@,
{
    reveal_strlit("content-type");
    let t = trim(k);
    assert forall|i: int| 0 <= i < t.len() implies #[trigger] lower(t)[i] == "content-type"@[i] by {
        assert(crate::text::lower_char("content-type"@[i]) == "content-type"@[i]);
    }
    assert(lower(t) =~= "content-type"@);
}

proof fn lemma_same_case_names(a: Seq<char>, b: Seq<char>)
    requires
        same_ignoring_ascii_case(a, b),
    ensures
        lower(a) == lower(b),
{
    assert(lower(a) =~= lower(b));
}

/// A header the user named `Content-Type`, in any letter case and with any surrounding
/// blanks, wins: no default `Content-Type` is added and the headers are kept as given.
pub proof fn law_user_content_type_wins(
    headers: Seq<(Seq<char>, bool, Seq<char>, Seq<char>)>,
    kind: BodyKind,
    has_body: bool,
    i: int,
)
    requires
        0 <= i < headers.len(),
        same_ignoring_ascii_case(trim(headers[i].2), "content-type"@),
    ensures
        with_content_type(headers, kind, has_body) == headers,
{
    lemma_names_content_type(headers[i].2);
}

/// Whether a default `Content-Type` is added does not depend on the letter case of the
/// header names: two header lists whose names agree up to case get one added alike.
pub proof fn law_content_type_ignores_name_case(
    h1: Seq<(Seq<char>, bool, Seq<char>, Seq<char>)>,
    h2: Seq<(Seq<char>, bool, Seq<char>, Seq<char>)>,
    kind: BodyKind,
    has_body: bool,
)
    requires
        h1.len() == h2.len(),
        forall|i: int| 0 <= i < h1.len() ==> same_ignoring_ascii_case(trim(#[trigger] h1[i].2), trim(h2[i].2)),
    ensures
        with_content_type(h1, kind, has_body).len() - h1.len() == with_content_type(h2, kind, has_body).len()
            - h2.len(),
        with_content_type(h1, kind, has_body).len() <= h1.len() + 1,
{
    assert forall|i: int| 0 <= i < h1.len() implies lower(trim(#[trigger] h1[i].2)) == lower(trim(h2[i].2)) by {
        lemma_same_case_names(trim(h1[i].2), trim(h2[i].2));
    }
    let a1 = exists|i: int| 0 <= i < h1.len() && lower(trim(h1[i].2)) == "content-type"@;
    let a2 = exists|i: int| 0 <= i < h2.len() && lower(trim(h2[i].2)) == "content-type"@;
    if a1 {
        let i = choose|i: int| 0 <= i < h1.len() && lower(trim(h1[i].2)) == "content-type"@;
        assert(lower(trim(h2[i].2)) == "content-type"@);
    }
    if a2 {
        let i = choose|i: int| 0 <= i < h2.len() && lower(trim(h2[i].2)) == "content-type"@;
        assert(lower(trim(h1[i].2)) == "content-type"@);
    }
}

} // verus!
