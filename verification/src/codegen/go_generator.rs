//! Go model, payload and resource sources for a table, as text.
use vstd::prelude::*;
use crate::text::{has_prefix, has_suffix, chars_of, string_of, trim, trimmed, push_all, push_str, eq_str, views, join, join_with, lines_of, lines};
use crate::order::{sorted_strings, sort_strings};
use crate::codegen::types::{AuditType, GoCodeGenConfig, ParsedField, GeneratedGoCrudResult, opt_view};
use crate::codegen::go_parser::{snake, to_snake_case, forward_slashes};
use crate::codegen::sql_parser::{strip_end, strip_end_exec};
use crate::api_http::request_prep::{strip_leading_slashes, strip_leading_slashes_exec, string_views};
use crate::api_http::url_ops::pair_views;

verus! {

/// Why a generation request is refused, checked in this order.
pub open spec fn config_error(c: GoCodeGenConfig) -> Option<Seq<char>> {
    if trim(c.entity_name@).len() == 0 {
        Some("实体名称不能为空"@)
    } else if trim(c.module_dir@).len() == 0 {
        Some("模块路径不能为空"@)
    } else if trim(c.table_name@).len() == 0 {
        Some("表名不能为空"@)
    } else if trim(c.table_alias@).len() == 0 {
        Some("表别名不能为空"@)
    } else if trim(c.rpc_path@).len() == 0 {
        Some("RPC 路径不能为空"@)
    } else if trim(c.go_module_prefix@).len() == 0 {
        Some("Go 模块前缀不能为空"@)
    } else if trim(c.output_dir@).len() == 0 {
        Some("输出目录不能为空"@)
    } else if c.fields@.len() == 0 {
        Some("至少需要一个字段"@)
    } else if !(c.enable_find_page || c.enable_create || c.enable_update || c.enable_delete
        || c.enable_delete_many) {
        Some("至少需要启用一个 CRUD 操作"@)
    } else {
        None
    }
}

fn blank(s: &String) -> (r: bool)
    ensures
        r == (trim(s@).len() == 0),
{
    trimmed(chars_of(s.as_str()).as_slice()).len() == 0
}

pub fn validate_config(config: &GoCodeGenConfig) -> (r: Result<(), String>)
    ensures
        match config_error(*config) {
            Some(e) => r is Err && r->Err_0@ == e,
            None => r is Ok,
        },
{
    if blank(&config.entity_name) {
        return Err("实体名称不能为空".to_owned());
    }
    if blank(&config.module_dir) {
        return Err("模块路径不能为空".to_owned());
    }
    if blank(&config.table_name) {
        return Err("表名不能为空".to_owned());
    }
    if blank(&config.table_alias) {
        return Err("表别名不能为空".to_owned());
    }
    if blank(&config.rpc_path) {
        return Err("RPC 路径不能为空".to_owned());
    }
    if blank(&config.go_module_prefix) {
        return Err("Go 模块前缀不能为空".to_owned());
    }
    if blank(&config.output_dir) {
        return Err("输出目录不能为空".to_owned());
    }
    if config.fields.len() == 0 {
        return Err("至少需要一个字段".to_owned());
    }
    if !(config.enable_find_page || config.enable_create || config.enable_update || config.enable_delete
        || config.enable_delete_many) {
        return Err("至少需要启用一个 CRUD 操作".to_owned());
    }
    Ok(())
}

/// Embedded audit model of an audit type.
pub open spec fn audit_model(a: AuditType) -> Option<Seq<char>> {
    match a {
        AuditType::FullAudited => Some("FullAuditedModel"@),
        AuditType::FullTracked => Some("FullTrackedModel"@),
        AuditType::CreationAudited => Some("CreationAuditedModel"@),
        AuditType::CreationTracked => Some("CreationTrackedModel"@),
        AuditType::NoAudit => None,
    }
}

pub fn audit_model_type(a: AuditType) -> (r: Option<&'static str>)
    ensures
        match audit_model(a) {
            Some(t) => r is Some && r->0@ == t,
            None => r is None,
        },
{
    match a {
        AuditType::FullAudited => Some("FullAuditedModel"),
        AuditType::FullTracked => Some("FullTrackedModel"),
        AuditType::CreationAudited => Some("CreationAuditedModel"),
        AuditType::CreationTracked => Some("CreationTrackedModel"),
        AuditType::NoAudit => None,
    }
}

pub fn audit_enabled(a: AuditType) -> (r: bool)
    ensures
        r == (a != AuditType::NoAudit),
{
    !matches!(a, AuditType::NoAudit)
}

/// Some field has a `time.Time` type.
pub open spec fn uses_time(fields: Seq<ParsedField>) -> bool {
    exists|i: int| 0 <= i < fields.len() && (fields[i].go_type@ == "time.Time"@ || fields[i].go_type@ == "*time.Time"@)
}

pub fn uses_time_type(fields: &Vec<ParsedField>) -> (r: bool)
    ensures
        r == uses_time(fields@),
{
    let mut i: usize = 0;
    while i < fields.len()
        invariant
            i <= fields@.len(),
            forall|j: int| 0 <= j < i ==> !(fields@[j].go_type@ == "time.Time"@ || fields@[j].go_type@ == "*time.Time"@),
        decreases fields@.len() - i,
    {
        let g = chars_of(fields[i].go_type.as_str());
        if eq_str(g.as_slice(), "time.Time") || eq_str(g.as_slice(), "*time.Time") {
            return true;
        }
        i += 1;
    }
    false
}

/// `s` without surrounding `/` and with `\` made `/`.
pub open spec fn slash_trimmed(s: Seq<char>) -> Seq<char> {
    forward_slashes(strip_end(strip_leading_slashes(s), '/'))
}

fn trim_slashes(s: &String) -> (r: Vec<char>)
    ensures
        r@ == slash_trimmed(s@),
{
    let a = strip_leading_slashes_exec(chars_of(s.as_str()).as_slice());
    let b = strip_end_exec(a.as_slice(), '/');
    let mut r: Vec<char> = Vec::new();
    for i in 0..b.len()
        invariant
            r@ == forward_slashes(b@).take(i as int),
    {
        r.push(if b[i] == '\\' { '/' } else { b[i] });
        assert(r@ =~= forward_slashes(b@).take(i + 1));
    }
    assert(forward_slashes(b@).take(b@.len() as int) =~= forward_slashes(b@));
    r
}

/// Each line prefixed with a tab.
pub open spec fn tabbed(v: Seq<Seq<char>>) -> Seq<Seq<char>> {
    Seq::new(v.len(), |i: int| "\t"@ + v[i])
}

/// An `import ( ... )` block with the imports in `String` order.
pub open spec fn import_block(imports: Seq<Seq<char>>) -> Seq<char> {
    join(seq!["import ("@] + tabbed(sorted_strings(imports)) + seq![")"@], "\n"@)
}

pub fn render_import_block(imports: &Vec<Vec<char>>) -> (r: Vec<char>)
    ensures
        r@ == import_block(views(imports@)),
{
    let sorted = sort_strings(imports);
    let mut ls: Vec<Vec<char>> = Vec::new();
    ls.push(chars_of("import ("));
    for i in 0..sorted.len()
        invariant
            views(ls@) == seq!["import ("@] + tabbed(views(sorted@)).take(i as int),
    {
        let mut l = chars_of("\t");
        push_all(&mut l, sorted[i].as_slice());
        let ghost before = views(ls@);
        ls.push(l);
        assert(views(ls@) =~= before.push(l@));
        assert(tabbed(views(sorted@)).take(i + 1) =~= tabbed(views(sorted@)).take(i as int).push(l@));
    }
    assert(tabbed(views(sorted@)).take(sorted@.len() as int) =~= tabbed(views(sorted@)));
    let ghost before = views(ls@);
    ls.push(chars_of(")"));
    assert(views(ls@) =~= before.push(")"@));
    assert(views(ls@) =~= seq!["import ("@] + tabbed(sorted_strings(views(imports@))) + seq![")"@]);
    join_with(ls.as_slice(), "\n")
}

/// Struct tags of a field: JSON name, validation, label, and for JSON maps (models only)
/// the bun column type.
pub open spec fn field_tags(f: ParsedField, model: bool) -> Seq<Seq<char>> {
    seq!["json:\""@ + f.json_name@ + "\""@] + (match opt_view(f.validate) {
        Some(v) => seq!["validate:\""@ + v + "\""@],
        None => Seq::empty(),
    }) + (match opt_view(f.comment) {
        Some(c) => seq!["label:\""@ + c + "\""@],
        None => Seq::empty(),
    }) + (if model && f.go_type@ == "map[string]any"@ {
        seq!["bun:\"type:jsonb,nullzero\""@]
    } else {
        Seq::empty()
    })
}

/// Source lines of a field: its comment, then the field with its tags and trailing comment.
pub open spec fn field_lines(f: ParsedField, model: bool) -> Seq<Seq<char>> {
    let decl = "\t"@ + f.go_name@ + " "@ + f.go_type@ + " `"@ + join(field_tags(f, model), " "@) + "`"@;
    match opt_view(f.comment) {
        Some(c) => seq!["\t// "@ + c, decl + " // "@ + c],
        None => seq![decl],
    }
}

/// Lines of all fields, in order.
pub open spec fn fields_lines(fields: Seq<ParsedField>, model: bool) -> Seq<Seq<char>>
    decreases fields.len(),
{
    if fields.len() == 0 {
        Seq::empty()
    } else {
        fields_lines(fields.drop_last(), model) + field_lines(fields.last(), model)
    }
}

fn quoted_tag(out: &mut Vec<Vec<char>>, name: &str, value: &[char])
    ensures
        views(final(out)@) == views(old(out)@).push(name@ + value@ + "\""@),
{
    let mut t = chars_of(name);
    push_all(&mut t, value);
    push_str(&mut t, "\"");
    let ghost before = views(out@);
    out.push(t);
    assert(views(out@) =~= before.push(name@ + value@ + "\""@));
}

fn push_field_lines(out: &mut Vec<Vec<char>>, f: &ParsedField, model: bool)
    ensures
        views(final(out)@) == views(old(out)@) + field_lines(*f, model),
{
    let mut tags: Vec<Vec<char>> = Vec::new();
    quoted_tag(&mut tags, "json:\"", chars_of(f.json_name.as_str()).as_slice());
    match &f.validate {
        Some(v) => quoted_tag(&mut tags, "validate:\"", chars_of(v.as_str()).as_slice()),
        None => {},
    }
    match &f.comment {
        Some(c) => quoted_tag(&mut tags, "label:\"", chars_of(c.as_str()).as_slice()),
        None => {},
    }
    let g = chars_of(f.go_type.as_str());
    if model && eq_str(g.as_slice(), "map[string]any") {
        let ghost before = views(tags@);
        tags.push(chars_of("bun:\"type:jsonb,nullzero\""));
        assert(views(tags@) =~= before.push("bun:\"type:jsonb,nullzero\""@));
    }
    assert(views(tags@) =~= field_tags(*f, model));
    let mut decl = chars_of("\t");
    push_all(&mut decl, chars_of(f.go_name.as_str()).as_slice());
    push_str(&mut decl, " ");
    push_all(&mut decl, g.as_slice());
    push_str(&mut decl, " `");
    push_all(&mut decl, join_with(tags.as_slice(), " ").as_slice());
    push_str(&mut decl, "`");
    let ghost before = views(out@);
    match &f.comment {
        Some(c) => {
            let cv = chars_of(c.as_str());
            let mut cl = chars_of("\t// ");
            push_all(&mut cl, cv.as_slice());
            out.push(cl);
            push_str(&mut decl, " // ");
            push_all(&mut decl, cv.as_slice());
            out.push(decl);
        },
        None => {
            out.push(decl);
        },
    }
    assert(views(out@) =~= before + field_lines(*f, model));
}

fn push_fields_lines(out: &mut Vec<Vec<char>>, fields: &Vec<ParsedField>, model: bool)
    ensures
        views(final(out)@) == views(old(out)@) + fields_lines(fields@, model),
{
    let ghost start = views(out@);
    assert(start + fields_lines(fields@.take(0), model) =~= start);
    for i in 0..fields.len()
        invariant
            views(out@) == start + fields_lines(fields@.take(i as int), model),
    {
        assert(fields@.take(i + 1).drop_last() =~= fields@.take(i as int));
        assert(fields@.take(i + 1).last() == fields@[i as int]);
        push_field_lines(out, &fields[i], model);
        assert(views(out@) =~= start + fields_lines(fields@.take(i + 1), model));
    }
    assert(fields@.take(fields@.len() as int) =~= fields@);
}

fn line3(a: &str, b: &[char], c: &str) -> (r: Vec<char>)
    ensures
        r@ == a@ + b@ + c@,
{
    let mut l = chars_of(a);
    push_all(&mut l, b);
    push_str(&mut l, c);
    l
}

fn line5(a: &str, b: &[char], c: &str, d: &[char], e: &str) -> (r: Vec<char>)
    ensures
        r@ == a@ + b@ + c@ + d@ + e@,
{
    let mut l = line3(a, b, c);
    push_all(&mut l, d);
    push_str(&mut l, e);
    l
}

fn push_line(out: &mut Vec<Vec<char>>, l: Vec<char>)
    ensures
        views(final(out)@) == views(old(out)@).push(l@),
{
    let ghost before = views(out@);
    out.push(l);
    assert(views(out@) =~= before.push(l@));
}

pub open spec fn model_imports(c: GoCodeGenConfig) -> Seq<Seq<char>> {
    seq!["\"github.com/coldsmirk/vef-framework-go/orm\""@] + if uses_time(c.fields@) {
        seq!["\"time\""@]
    } else {
        Seq::empty()
    }
}

/// Lines of the model source.
pub open spec fn model_lines(c: GoCodeGenConfig) -> Seq<Seq<char>> {
    let e = c.entity_name@;
    seq![
        "package model"@,
        Seq::empty(),
        import_block(model_imports(c)),
        Seq::empty(),
        "// "@ + e + " 自动生成模型."@,
        "type "@ + e + " struct {"@,
        "\torm.BaseModel `bun:\"table:"@ + c.table_name@ + ",alias:"@ + c.table_alias@ + "\"`"@,
    ] + (match audit_model(c.audit_type) {
        Some(t) => seq!["\torm."@ + t],
        None => Seq::empty(),
    }) + seq![Seq::empty()] + fields_lines(c.fields@, true) + seq!["}"@]
}

pub open spec fn model_content(c: GoCodeGenConfig) -> Seq<char> {
    join(model_lines(c), "\n"@)
}

fn imports_with_time(first: &str, time: bool) -> (r: Vec<Vec<char>>)
    ensures
        views(r@) == seq![first@] + if time {
            seq!["\"time\""@]
        } else {
            Seq::<Seq<char>>::empty()
        },
{
    let mut v: Vec<Vec<char>> = Vec::new();
    push_line(&mut v, chars_of(first));
    if time {
        push_line(&mut v, chars_of("\"time\""));
    }
    assert(views(v@) =~= seq![first@] + if time {
        seq!["\"time\""@]
    } else {
        Seq::<Seq<char>>::empty()
    });
    v
}

pub fn generate_model_content(config: &GoCodeGenConfig) -> (r: String)
    ensures
        r@ == model_content(*config),
{
    let e = chars_of(config.entity_name.as_str());
    let imports = imports_with_time("\"github.com/coldsmirk/vef-framework-go/orm\"", uses_time_type(&config.fields));
    let mut ls: Vec<Vec<char>> = Vec::new();
    push_line(&mut ls, chars_of("package model"));
    push_line(&mut ls, Vec::new());
    push_line(&mut ls, render_import_block(&imports));
    push_line(&mut ls, Vec::new());
    push_line(&mut ls, line3("// ", e.as_slice(), " 自动生成模型."));
    push_line(&mut ls, line3("type ", e.as_slice(), " struct {"));
    push_line(
        &mut ls,
        line5(
            "\torm.BaseModel `bun:\"table:",
            chars_of(config.table_name.as_str()).as_slice(),
            ",alias:",
            chars_of(config.table_alias.as_str()).as_slice(),
            "\"`",
        ),
    );
    match audit_model_type(config.audit_type) {
        Some(t) => push_line(&mut ls, line3("\torm.", chars_of(t).as_slice(), "")),
        None => {},
    }
    push_line(&mut ls, Vec::new());
    push_fields_lines(&mut ls, &config.fields, true);
    push_line(&mut ls, chars_of("}"));
    proof {
        reveal_strlit("");
    }
    assert(views(ls@) =~= model_lines(*config));
    string_of(join_with(ls.as_slice(), "\n").as_slice())
}

/// First field from `i` named `name`.
pub open spec fn name_field(fields: Seq<ParsedField>, i: int) -> Option<int>
    decreases fields.len() - i,
{
    if i < 0 || i >= fields.len() {
        None
    } else if fields[i].name@ == "name"@ {
        Some(i)
    } else {
        name_field(fields, i + 1)
    }
}

/// First field from `i` of type `string` or `*string`.
pub open spec fn string_field(fields: Seq<ParsedField>, i: int) -> Option<int>
    decreases fields.len() - i,
{
    if i < 0 || i >= fields.len() {
        None
    } else if fields[i].go_type@ == "string"@ || fields[i].go_type@ == "*string"@ {
        Some(i)
    } else {
        string_field(fields, i + 1)
    }
}

/// Column searched by the keyword: `name`, else the first text field, else the first field.
pub open spec fn search_column(fields: Seq<ParsedField>) -> Seq<char> {
    match name_field(fields, 0) {
        Some(i) => fields[i].name@,
        None => match string_field(fields, 0) {
            Some(i) => fields[i].name@,
            None => fields[0].name@,
        },
    }
}

pub fn preferred_search_column(fields: &Vec<ParsedField>) -> (r: Vec<char>)
    requires
        fields@.len() > 0,
    ensures
        r@ == search_column(fields@),
{
    let mut i: usize = 0;
    while i < fields.len()
        invariant
            i <= fields@.len(),
            name_field(fields@, 0) == name_field(fields@, i as int),
        decreases fields@.len() - i,
    {
        if eq_str(chars_of(fields[i].name.as_str()).as_slice(), "name") {
            return chars_of(fields[i].name.as_str());
        }
        i += 1;
    }
    let mut j: usize = 0;
    while j < fields.len()
        invariant
            j <= fields@.len(),
            name_field(fields@, 0) is None,
            string_field(fields@, 0) == string_field(fields@, j as int),
        decreases fields@.len() - j,
    {
        let g = chars_of(fields[j].go_type.as_str());
        if eq_str(g.as_slice(), "string") || eq_str(g.as_slice(), "*string") {
            return chars_of(fields[j].name.as_str());
        }
        j += 1;
    }
    chars_of(fields[0].name.as_str())
}

pub open spec fn payload_imports(c: GoCodeGenConfig) -> Seq<Seq<char>> {
    seq!["\"github.com/coldsmirk/vef-framework-go/api\""@] + if uses_time(c.fields@) {
        seq!["\"time\""@]
    } else {
        Seq::empty()
    }
}

/// Lines of the payload source.
pub open spec fn payload_lines(c: GoCodeGenConfig) -> Seq<Seq<char>> {
    let e = c.entity_name@;
    seq![
        "package payload"@,
        Seq::empty(),
        import_block(payload_imports(c)),
        Seq::empty(),
        "// "@ + e + "Search 自动生成搜索参数."@,
        "type "@ + e + "Search struct {"@,
        "\tapi.P"@,
        Seq::empty(),
        "\tKeyword string `json:\"keyword\" search:\"contains,column="@ + search_column(c.fields@) + "\"`"@,
        "}"@,
        Seq::empty(),
        "// "@ + e + "Params 自动生成新增/修改参数."@,
        "type "@ + e + "Params struct {"@,
        "\tapi.P"@,
        Seq::empty(),
        "\tID string `json:\"id\"`"@,
    ] + fields_lines(c.fields@, false) + seq!["}"@]
}

pub open spec fn payload_content(c: GoCodeGenConfig) -> Seq<char> {
    join(payload_lines(c), "\n"@)
}

pub fn generate_payload_content(config: &GoCodeGenConfig) -> (r: String)
    requires
        config.fields@.len() > 0,
    ensures
        r@ == payload_content(*config),
{
    let e = chars_of(config.entity_name.as_str());
    let imports = imports_with_time("\"github.com/coldsmirk/vef-framework-go/api\"", uses_time_type(&config.fields));
    let column = preferred_search_column(&config.fields);
    let mut ls: Vec<Vec<char>> = Vec::new();
    push_line(&mut ls, chars_of("package payload"));
    push_line(&mut ls, Vec::new());
    push_line(&mut ls, render_import_block(&imports));
    push_line(&mut ls, Vec::new());
    push_line(&mut ls, line3("// ", e.as_slice(), "Search 自动生成搜索参数."));
    push_line(&mut ls, line3("type ", e.as_slice(), "Search struct {"));
    push_line(&mut ls, chars_of("\tapi.P"));
    push_line(&mut ls, Vec::new());
    push_line(&mut ls, line3("\tKeyword string `json:\"keyword\" search:\"contains,column=", column.as_slice(), "\"`"));
    push_line(&mut ls, chars_of("}"));
    push_line(&mut ls, Vec::new());
    push_line(&mut ls, line3("// ", e.as_slice(), "Params 自动生成新增/修改参数."));
    push_line(&mut ls, line3("type ", e.as_slice(), "Params struct {"));
    push_line(&mut ls, chars_of("\tapi.P"));
    push_line(&mut ls, Vec::new());
    push_line(&mut ls, chars_of("\tID string `json:\"id\"`"));
    push_fields_lines(&mut ls, &config.fields, false);
    push_line(&mut ls, chars_of("}"));
    assert(views(ls@) =~= payload_lines(*config));
    string_of(join_with(ls.as_slice(), "\n").as_slice())
}

/// Each line of `block` behind `prefix`, joined again.
pub open spec fn indented(block: Seq<char>, prefix: Seq<char>) -> Seq<char> {
    join(Seq::new(lines_of(block).len(), |i: int| prefix + lines_of(block)[i]), "\n"@)
}

pub fn indent_block(block: &[char], prefix: &str) -> (r: Vec<char>)
    ensures
        r@ == indented(block@, prefix@),
{
    let ls = lines(block);
    let ghost want = Seq::new(lines_of(block@).len(), |i: int| prefix@ + lines_of(block@)[i]);
    let mut out: Vec<Vec<char>> = Vec::new();
    for i in 0..ls.len()
        invariant
            views(ls@) == lines_of(block@),
            want == Seq::new(lines_of(block@).len(), |i: int| prefix@ + lines_of(block@)[i]),
            views(out@) == want.take(i as int),
    {
        let mut l = chars_of(prefix);
        push_all(&mut l, ls[i].as_slice());
        assert(views(ls@)[i as int] == ls@[i as int]@);
        push_line(&mut out, l);
        assert(want.take(i + 1) =~= want.take(i as int).push(want[i as int]));
    }
    assert(want.take(ls@.len() as int) =~= want);
    join_with(out.as_slice(), "\n")
}

/// The chained `FindPage` initializer.
pub open spec fn find_page_chain(c: GoCodeGenConfig) -> Seq<Seq<char>> {
    let e = c.entity_name@;
    (if c.enable_sort {
        seq!["WithDefaultSort(&sortx.OrderSpec{\n\t\t\t\tColumn: schema."@ + e + ".SortOrder(),\n\t\t\t})"@]
    } else {
        Seq::empty()
    }) + (if c.enable_audit_user_names {
        seq!["WithAuditUserNames(model.UserModel)"@]
    } else {
        Seq::empty()
    })
}

/// `.\n` and the indented operation, for each operation.
pub open spec fn chained(ops: Seq<Seq<char>>) -> Seq<char>
    decreases ops.len(),
{
    if ops.len() == 0 {
        Seq::empty()
    } else {
        chained(ops.drop_last()) + ".\n"@ + indented(ops.last(), "\t\t\t"@)
    }
}

#[verifier::opaque]
pub open spec fn find_page_initializer(c: GoCodeGenConfig) -> Seq<char> {
    let e = c.entity_name@;
    "\t\tFindPage: "@ + ("crud.NewFindPage[model."@ + e + ", payload."@ + e + "Search]()"@) + chained(
        find_page_chain(c),
    ) + ","@
}

pub fn render_find_page_initializer(config: &GoCodeGenConfig) -> (r: Vec<char>)
    ensures
        r@ == find_page_initializer(*config),
{
    reveal(find_page_initializer);
    let e = chars_of(config.entity_name.as_str());
    let mut ops: Vec<Vec<char>> = Vec::new();
    if config.enable_sort {
        push_line(
            &mut ops,
            line3("WithDefaultSort(&sortx.OrderSpec{\n\t\t\t\tColumn: schema.", e.as_slice(), ".SortOrder(),\n\t\t\t})"),
        );
    }
    if config.enable_audit_user_names {
        push_line(&mut ops, chars_of("WithAuditUserNames(model.UserModel)"));
    }
    assert(views(ops@) =~= find_page_chain(*config));
    let mut r = chars_of("\t\tFindPage: ");
    push_all(&mut r, line5("crud.NewFindPage[model.", e.as_slice(), ", payload.", e.as_slice(), "Search]()").as_slice());
    let ghost head = r@;
    assert(views(ops@).take(0) =~= Seq::<Seq<char>>::empty());
    for i in 0..ops.len()
        invariant
            r@ == head + chained(views(ops@).take(i as int)),
    {
        push_str(&mut r, ".\n");
        push_all(&mut r, indent_block(ops[i].as_slice(), "\t\t\t").as_slice());
        assert(views(ops@).take(i + 1).drop_last() =~= views(ops@).take(i as int));
        assert(views(ops@).take(i + 1).last() == ops@[i as int]@);
        assert(r@ =~= head + chained(views(ops@).take(i + 1)));
    }
    assert(views(ops@).take(ops@.len() as int) =~= views(ops@));
    push_str(&mut r, ",");
    r
}

/// A one-call initializer, with `EnableAudit()` chained when auditing.
#[verifier::opaque]
pub open spec fn simple_initializer(field: Seq<char>, init: Seq<char>, audit: bool) -> Seq<char> {
    if audit {
        "\t\t"@ + field + ": "@ + init + "().\n\t\t\tEnableAudit(),"@
    } else {
        "\t\t"@ + field + ": "@ + init + ","@
    }
}

pub fn render_simple_initializer(field_name: &str, initializer: &[char], enable_audit: bool) -> (r: Vec<char>)
    ensures
        r@ == simple_initializer(field_name@, initializer@, enable_audit),
{
    reveal(simple_initializer);
    let mut r = chars_of("\t\t");
    push_str(&mut r, field_name);
    push_str(&mut r, ": ");
    push_all(&mut r, initializer);
    if enable_audit {
        push_str(&mut r, "().\n\t\t\tEnableAudit(),");
    } else {
        push_str(&mut r, ",");
    }
    r
}

pub open spec fn module_import_path(c: GoCodeGenConfig) -> Seq<char> {
    slash_trimmed(c.go_module_prefix@) + "/"@ + slash_trimmed(c.module_dir@)
}

pub open spec fn resource_imports(c: GoCodeGenConfig) -> Seq<Seq<char>> {
    let m = module_import_path(c);
    seq![
        "\"github.com/coldsmirk/vef-framework-go/api\""@,
        "\"github.com/coldsmirk/vef-framework-go/crud\""@,
        "\""@ + m + "/model\""@,
        "\""@ + m + "/payload\""@,
    ] + if c.enable_sort {
        seq!["\"github.com/coldsmirk/vef-framework-go/sortx\""@, "\""@ + m + "/schema\""@]
    } else {
        Seq::empty()
    }
}

pub open spec fn when(b: bool, l: Seq<char>) -> Seq<Seq<char>> {
    if b {
        seq![l]
    } else {
        Seq::empty()
    }
}

/// Header, imports and struct of the resource source.
pub open spec fn resource_struct_lines(c: GoCodeGenConfig) -> Seq<Seq<char>> {
    let e = c.entity_name@;
    seq![
        "package resource"@,
        Seq::empty(),
        import_block(resource_imports(c)),
        Seq::empty(),
        "// "@ + e + "Resource 自动生成资源."@,
        "type "@ + e + "Resource struct {"@,
        "\tapi.Resource"@,
    ] + when(c.enable_find_page, "\tcrud.FindPage[model."@ + e + ", payload."@ + e + "Search]"@) + when(
        c.enable_create,
        "\tcrud.Create[model."@ + e + ", payload."@ + e + "Params]"@,
    ) + when(c.enable_update, "\tcrud.Update[model."@ + e + ", payload."@ + e + "Params]"@) + when(
        c.enable_delete,
        "\tcrud.Delete[model."@ + e + "]"@,
    ) + when(c.enable_delete_many, "\tcrud.DeleteMany[model."@ + e + "]"@) + seq!["}"@]
}

/// Constructor of the resource source.
pub open spec fn resource_ctor_lines(c: GoCodeGenConfig) -> Seq<Seq<char>> {
    let e = c.entity_name@;
    let audit = c.audit_type != AuditType::NoAudit;
    seq![
        Seq::empty(),
        "func New"@ + e + "Resource() api.Resource {"@,
        "\treturn &"@ + e + "Resource{"@,
        "\t\tResource: api.NewRPCResource(\""@ + c.rpc_path@ + "\"),"@,
    ] + when(c.enable_find_page, find_page_initializer(c)) + when(
        c.enable_create,
        simple_initializer("Create"@, "crud.NewCreate[model."@ + e + ", payload."@ + e + "Params]()"@, audit),
    ) + when(
        c.enable_update,
        simple_initializer("Update"@, "crud.NewUpdate[model."@ + e + ", payload."@ + e + "Params]()"@, audit),
    ) + when(c.enable_delete, simple_initializer("Delete"@, "crud.NewDelete[model."@ + e + "]()"@, audit))
        + when(
        c.enable_delete_many,
        simple_initializer("DeleteMany"@, "crud.NewDeleteMany[model."@ + e + "]()"@, audit),
    ) + seq!["\t}"@, "}"@]
}

/// Lines of the resource source.
pub open spec fn resource_lines(c: GoCodeGenConfig) -> Seq<Seq<char>> {
    resource_struct_lines(c) + resource_ctor_lines(c)
}

pub open spec fn resource_content(c: GoCodeGenConfig) -> Seq<char> {
    join(resource_lines(c), "\n"@)
}

fn push_when(out: &mut Vec<Vec<char>>, b: bool, l: Vec<char>)
    ensures
        views(final(out)@) == views(old(out)@) + when(b, l@),
{
    if b {
        push_line(out, l);
        assert(views(out@) =~= views(old(out)@) + when(b, l@));
    } else {
        assert(views(out@) =~= views(old(out)@) + when(b, l@));
    }
}

fn resource_import_list(config: &GoCodeGenConfig, m: &[char]) -> (r: Vec<Vec<char>>)
    requires
        m@ == module_import_path(*config),
    ensures
        views(r@) == resource_imports(*config),
{
    let mut imports: Vec<Vec<char>> = Vec::new();
    push_line(&mut imports, chars_of("\"github.com/coldsmirk/vef-framework-go/api\""));
    push_line(&mut imports, chars_of("\"github.com/coldsmirk/vef-framework-go/crud\""));
    push_line(&mut imports, line3("\"", m, "/model\""));
    push_line(&mut imports, line3("\"", m, "/payload\""));
    if config.enable_sort {
        push_line(&mut imports, chars_of("\"github.com/coldsmirk/vef-framework-go/sortx\""));
        push_line(&mut imports, line3("\"", m, "/schema\""));
    }
    assert(views(imports@) =~= resource_imports(*config));
    imports
}

fn push_resource_struct(ls: &mut Vec<Vec<char>>, config: &GoCodeGenConfig, imports: &Vec<Vec<char>>)
    requires
        views(imports@) == resource_imports(*config),
    ensures
        views(final(ls)@) == views(old(ls)@) + resource_struct_lines(*config),
{
    let e = chars_of(config.entity_name.as_str());
    let es = e.as_slice();
    let ghost start = views(ls@);
    push_line(ls, chars_of("package resource"));
    push_line(ls, Vec::new());
    push_line(ls, render_import_block(imports));
    push_line(ls, Vec::new());
    push_line(ls, line3("// ", es, "Resource 自动生成资源."));
    push_line(ls, line3("type ", es, "Resource struct {"));
    push_line(ls, chars_of("\tapi.Resource"));
    push_when(ls, config.enable_find_page, line5("\tcrud.FindPage[model.", es, ", payload.", es, "Search]"));
    push_when(ls, config.enable_create, line5("\tcrud.Create[model.", es, ", payload.", es, "Params]"));
    push_when(ls, config.enable_update, line5("\tcrud.Update[model.", es, ", payload.", es, "Params]"));
    push_when(ls, config.enable_delete, line3("\tcrud.Delete[model.", es, "]"));
    push_when(ls, config.enable_delete_many, line3("\tcrud.DeleteMany[model.", es, "]"));
    push_line(ls, chars_of("}"));
    assert(views(ls@) =~= start + resource_struct_lines(*config));
}

#[verifier::rlimit(50)]
fn push_resource_ctor(ls: &mut Vec<Vec<char>>, config: &GoCodeGenConfig)
    ensures
        views(final(ls)@) == views(old(ls)@) + resource_ctor_lines(*config),
{
    let e = chars_of(config.entity_name.as_str());
    let es = e.as_slice();
    let audit = audit_enabled(config.audit_type);
    let ghost start = views(ls@);
    push_line(ls, Vec::new());
    push_line(ls, line3("func New", es, "Resource() api.Resource {"));
    push_line(ls, line3("\treturn &", es, "Resource{"));
    push_line(ls, line3("\t\tResource: api.NewRPCResource(\"", chars_of(config.rpc_path.as_str()).as_slice(), "\"),"));
    push_when(ls, config.enable_find_page, render_find_page_initializer(config));
    push_when(
        ls,
        config.enable_create,
        render_simple_initializer("Create", line5("crud.NewCreate[model.", es, ", payload.", es, "Params]()").as_slice(), audit),
    );
    push_when(
        ls,
        config.enable_update,
        render_simple_initializer("Update", line5("crud.NewUpdate[model.", es, ", payload.", es, "Params]()").as_slice(), audit),
    );
    push_when(
        ls,
        config.enable_delete,
        render_simple_initializer("Delete", line3("crud.NewDelete[model.", es, "]()").as_slice(), audit),
    );
    push_when(
        ls,
        config.enable_delete_many,
        render_simple_initializer("DeleteMany", line3("crud.NewDeleteMany[model.", es, "]()").as_slice(), audit),
    );
    push_line(ls, chars_of("\t}"));
    push_line(ls, chars_of("}"));
    assert(views(ls@) =~= start + resource_ctor_lines(*config));
}

pub fn generate_resource_content(config: &GoCodeGenConfig) -> (r: String)
    ensures
        r@ == resource_content(*config),
{
    proof {
        reveal_strlit("/");
    }
    let mut m = trim_slashes(&config.go_module_prefix);
    m.push('/');
    push_all(&mut m, trim_slashes(&config.module_dir).as_slice());
    assert(m@ =~= module_import_path(*config));
    let imports = resource_import_list(config, m.as_slice());
    let mut ls: Vec<Vec<char>> = Vec::new();
    push_resource_struct(&mut ls, config, &imports);
    push_resource_ctor(&mut ls, config);
    assert(views(ls@) =~= resource_lines(*config));
    string_of(join_with(ls.as_slice(), "\n").as_slice())
}

/// Relative paths and contents of the three Go sources, or why the request is refused.
pub open spec fn go_outputs(c: GoCodeGenConfig) -> Result<Seq<(Seq<char>, Seq<char>)>, Seq<char>> {
    match config_error(c) {
        Some(e) => Err(e),
        None => {
            let f = snake(c.entity_name@);
            Ok(
                seq![
                    ("model/"@ + f + ".go"@, model_content(c)),
                    ("payload/"@ + f + ".go"@, payload_content(c)),
                    ("resource/"@ + f + ".go"@, resource_content(c)),
                ],
            )
        },
    }
}

pub fn go_crud_outputs(config: &GoCodeGenConfig) -> (r: Result<Vec<(String, String)>, String>)
    ensures
        match go_outputs(*config) {
            Ok(v) => r is Ok && pair_views(r->Ok_0@) == v,
            Err(e) => r is Err && r->Err_0@ == e,
        },
{
    match validate_config(config) {
        Err(e) => return Err(e),
        Ok(()) => {},
    }
    let f = to_snake_case(chars_of(config.entity_name.as_str()).as_slice());
    let mut out: Vec<(String, String)> = Vec::new();
    out.push((string_of(line3("model/", f.as_slice(), ".go").as_slice()), generate_model_content(config)));
    out.push((string_of(line3("payload/", f.as_slice(), ".go").as_slice()), generate_payload_content(config)));
    out.push((string_of(line3("resource/", f.as_slice(), ".go").as_slice()), generate_resource_content(config)));
    assert(pair_views(out@) =~= go_outputs(*config)->Ok_0);
    Ok(out)
}

/// Line that registers the generated resource in the module.
pub fn module_registration_snippet(entity_name: &str) -> (r: String)
    ensures
        r@ == "vef.ProvideAPIResource(resource.New"@ + entity_name@ + "Resource),"@,
{
    string_of(line3("vef.ProvideAPIResource(resource.New", chars_of(entity_name).as_slice(), "Resource),").as_slice())
}

/// Refusal to write over existing files unless overwriting is on.
pub open spec fn overwrite_refusal(overwrite: bool, existing: Seq<Seq<char>>) -> Option<Seq<char>> {
    if !overwrite && existing.len() > 0 {
        Some("以下文件已存在，请开启覆盖后重试:\n"@ + join(existing, "\n"@))
    } else {
        None
    }
}

pub fn existing_files_error(overwrite: bool, existing: &Vec<String>) -> (r: Option<String>)
    ensures
        match overwrite_refusal(overwrite, string_views(existing@)) {
            Some(m) => r is Some && r->0@ == m,
            None => r is None,
        },
{
    if overwrite || existing.len() == 0 {
        return None;
    }
    let mut parts: Vec<Vec<char>> = Vec::new();
    for i in 0..existing.len()
        invariant
            views(parts@) == string_views(existing@).take(i as int),
    {
        push_line(&mut parts, chars_of(existing[i].as_str()));
        assert(string_views(existing@).take(i + 1) =~= string_views(existing@).take(i as int).push(
            existing@[i as int]@,
        ));
    }
    assert(string_views(existing@).take(existing@.len() as int) =~= string_views(existing@));
    let mut m = chars_of("以下文件已存在，请开启覆盖后重试:\n");
    push_all(&mut m, join_with(parts.as_slice(), "\n").as_slice());
    Some(string_of(m.as_slice()))
}

/// The result of a Go generation: the written files and the registration line.
pub fn go_crud_result(generated_files: Vec<String>, entity_name: &str) -> (r: GeneratedGoCrudResult)
    ensures
        r.generated_files@ == generated_files@,
        r.module_registration_snippet@ == "vef.ProvideAPIResource(resource.New"@ + entity_name@ + "Resource),"@,
{
    GeneratedGoCrudResult { generated_files, module_registration_snippet: module_registration_snippet(entity_name) }
}

/// Each audit type embeds its own model, and only `NoAudit` embeds none. A model is
/// `Full…` exactly for the full audit types, and `…TrackedModel` exactly for the tracked ones
/// (the rest are `…AuditedModel`).
pub proof fn law_audit_model_names(a: AuditType, b: AuditType)
    ensures
        audit_model(a) is None <==> a == AuditType::NoAudit,
        audit_model(a) == audit_model(b) ==> a == b,
        audit_model(a) is Some ==> (has_prefix(audit_model(a)->0, "Full"@) <==> (a == AuditType::FullAudited
            || a == AuditType::FullTracked)),
        audit_model(a) is Some ==> (has_suffix(audit_model(a)->0, "TrackedModel"@) <==> (a
            == AuditType::FullTracked || a == AuditType::CreationTracked)),
        audit_model(a) is Some ==> (has_suffix(audit_model(a)->0, "AuditedModel"@) <==> (a
            == AuditType::FullAudited || a == AuditType::CreationAudited)),
{
    reveal_strlit("FullAuditedModel");
    reveal_strlit("FullTrackedModel");
    reveal_strlit("CreationAuditedModel");
    reveal_strlit("CreationTrackedModel");
    reveal_strlit("Full");
    reveal_strlit("TrackedModel");
    reveal_strlit("AuditedModel");
    let fa = "FullAuditedModel"@;
    let ft = "FullTrackedModel"@;
    let ca = "CreationAuditedModel"@;
    let ct = "CreationTrackedModel"@;
    assert(fa.take(4) =~= "Full"@);
    assert(ft.take(4) =~= "Full"@);
    assert(ca[0] != 'F' && ct[0] != 'F');
    assert(ca.take(4)[0] == ca[0] && ct.take(4)[0] == ct[0]);
    assert(ft.skip(4) =~= "TrackedModel"@);
    assert(ct.skip(8) =~= "TrackedModel"@);
    assert(fa.skip(4) =~= "AuditedModel"@);
    assert(ca.skip(8) =~= "AuditedModel"@);
    assert(fa.skip(4)[0] != "TrackedModel"@[0]);
    assert(ca.skip(8)[0] != "TrackedModel"@[0]);
    assert(ft.skip(4)[0] != "AuditedModel"@[0]);
    assert(ct.skip(8)[0] != "AuditedModel"@[0]);
    assert(fa[4] != ft[4]);
    assert(ca[8] != ct[8]);
    assert(fa.len() != ca.len() && fa.len() != ct.len() && ft.len() != ca.len() && ft.len() != ct.len());
}

} // verus!
