//! What the TypeScript page and API templates are filled with, the files they become, and
//! the update of the API barrel file.
use vstd::prelude::*;
use crate::text::{
    chars_of, string_of, trim, trimmed, push_all, push_str, eq_str, views, join, join_with, lines_of, lines,
    has_suffix, ends_with_str, dec, push_dec,
};
use crate::unicode::{to_lowercase, unicode_lower};
use crate::codegen::types::{ModelField, ModelFieldSpec, ParsedEntity, model_field_views};

verus! {

/// JSON names of the audit columns.
pub open spec fn is_audit_json(n: Seq<char>) -> bool {
    ||| n == "id"@
    ||| n == "createdAt"@
    ||| n == "updatedAt"@
    ||| n == "createdBy"@
    ||| n == "updatedBy"@
    ||| n == "createdByName"@
    ||| n == "updatedByName"@
}

pub fn is_audit_field(json_name: &[char]) -> (r: bool)
    ensures
        r == is_audit_json(json_name@),
{
    eq_str(json_name, "id") || eq_str(json_name, "createdAt") || eq_str(json_name, "updatedAt") || eq_str(
        json_name,
        "createdBy",
    ) || eq_str(json_name, "updatedBy") || eq_str(json_name, "createdByName") || eq_str(json_name, "updatedByName")
}

pub open spec fn is_bool_type(g: Seq<char>) -> bool {
    g == "bool"@ || g == "*bool"@
}

pub open spec fn is_number_type(g: Seq<char>) -> bool {
    ||| g == "int"@
    ||| g == "int32"@
    ||| g == "int64"@
    ||| g == "uint"@
    ||| g == "uint32"@
    ||| g == "uint64"@
    ||| g == "*int"@
    ||| g == "*int32"@
    ||| g == "*int64"@
    ||| g == "*uint"@
    ||| g == "*uint32"@
    ||| g == "*uint64"@
}

pub fn is_bool_field(field: &ModelField) -> (r: bool)
    ensures
        r == is_bool_type(field.go_type@),
{
    let g = chars_of(field.go_type.as_str());
    eq_str(g.as_slice(), "bool") || eq_str(g.as_slice(), "*bool")
}

pub fn is_number_field(field: &ModelField) -> (r: bool)
    ensures
        r == is_number_type(field.go_type@),
{
    let g = chars_of(field.go_type.as_str());
    let s = g.as_slice();
    eq_str(s, "int") || eq_str(s, "int32") || eq_str(s, "int64") || eq_str(s, "uint") || eq_str(s, "uint32")
        || eq_str(s, "uint64") || eq_str(s, "*int") || eq_str(s, "*int32") || eq_str(s, "*int64") || eq_str(
        s,
        "*uint",
    ) || eq_str(s, "*uint32") || eq_str(s, "*uint64")
}

/// Initial form value of a field, or `undefined`.
pub open spec fn default_value(f: ModelFieldSpec) -> Seq<char> {
    let g = f.go_type;
    if is_bool_type(g) && f.json_name == "isActive"@ {
        "true"@
    } else if is_bool_type(g) {
        "false"@
    } else if g == "[]string"@ || g == "[]int"@ || g == "[]int32"@ || g == "[]int64"@ || g == "[]uint"@ || g
        == "[]uint32"@ || g == "[]uint64"@ || g == "[]bool"@ {
        "[]"@
    } else if g == "map[string]any"@ {
        "{}"@
    } else {
        "undefined"@
    }
}

pub fn default_value_for_field(field: &ModelField) -> (r: &'static str)
    ensures
        r@ == default_value(field@),
{
    let g = chars_of(field.go_type.as_str());
    let s = g.as_slice();
    let j = chars_of(field.json_name.as_str());
    if (eq_str(s, "bool") || eq_str(s, "*bool")) && eq_str(j.as_slice(), "isActive") {
        "true"
    } else if eq_str(s, "bool") || eq_str(s, "*bool") {
        "false"
    } else if eq_str(s, "[]string") || eq_str(s, "[]int") || eq_str(s, "[]int32") || eq_str(s, "[]int64")
        || eq_str(s, "[]uint") || eq_str(s, "[]uint32") || eq_str(s, "[]uint64") || eq_str(s, "[]bool") {
        "[]"
    } else if eq_str(s, "map[string]any") {
        "{}"
    } else {
        "undefined"
    }
}

/// `_` replaced by `-`.
pub open spec fn kebab(s: Seq<char>) -> Seq<char> {
    Seq::new(s.len(), |i: int| if s[i] == '_' { '-' } else { s[i] })
}

pub fn to_kebab_case(value: &[char]) -> (r: Vec<char>)
    ensures
        r@ == kebab(value@),
{
    let mut r: Vec<char> = Vec::new();
    for i in 0..value.len()
        invariant
            r@ == kebab(value@).take(i as int),
    {
        r.push(if value[i] == '_' { '-' } else { value[i] });
        assert(r@ =~= kebab(value@).take(i + 1));
    }
    assert(kebab(value@).take(value@.len() as int) =~= kebab(value@));
    r
}

/// First character lower-cased (Unicode), the rest kept.
pub open spec fn lowered_first(s: Seq<char>) -> Seq<char> {
    if s.len() == 0 {
        Seq::empty()
    } else {
        unicode_lower(s[0]) + s.skip(1)
    }
}

pub fn lower_first(value: &[char]) -> (r: Vec<char>)
    ensures
        r@ == lowered_first(value@),
{
    if value.len() == 0 {
        return Vec::new();
    }
    let mut r = to_lowercase(value[0]);
    push_all(&mut r, crate::text::slice_of(value, 1, value.len()).as_slice());
    assert(value@.subrange(1, value@.len() as int) =~= value@.skip(1));
    r
}

/// File name of an entity in the front end.
pub open spec fn frontend_name(snake_name: Seq<char>) -> Seq<char> {
    kebab(snake_name)
}

/// The entity's file name in the front end: its snake-case name in kebab case.
pub fn frontend_entity_name(entity: &ParsedEntity) -> (r: Vec<char>)
    ensures
        r@ == frontend_name(entity.snake_name@),
{
    to_kebab_case(chars_of(entity.snake_name.as_str()).as_slice())
}

/// Lines `    <json>: <value>` of fields with a default, in order.
pub open spec fn default_lines(fields: Seq<ModelFieldSpec>) -> Seq<Seq<char>>
    decreases fields.len(),
{
    if fields.len() == 0 {
        Seq::empty()
    } else {
        let r = default_lines(fields.drop_last());
        let v = default_value(fields.last());
        if v != "undefined"@ {
            r.push("    "@ + fields.last().json_name + ": "@ + v)
        } else {
            r
        }
    }
}

/// The form's initial values as an object literal, when some field has one.
pub open spec fn scene_default_values(fields: Seq<ModelFieldSpec>) -> Option<Seq<char>> {
    let ls = default_lines(fields);
    if ls.len() == 0 {
        None
    } else {
        Some("{\n"@ + join(ls, ",\n"@) + "\n  }"@)
    }
}

pub fn build_scene_default_form_values(fields: &Vec<ModelField>) -> (r: Option<String>)
    ensures
        match scene_default_values(model_field_views(fields@)) {
            Some(s) => r is Some && r->0@ == s,
            None => r is None,
        },
{
    let ghost fv = model_field_views(fields@);
    let mut ls: Vec<Vec<char>> = Vec::new();
    assert(fv.take(0) =~= Seq::<ModelFieldSpec>::empty());
    for i in 0..fields.len()
        invariant
            fv == model_field_views(fields@),
            views(ls@) == default_lines(fv.take(i as int)),
    {
        assert(fv.take(i + 1).drop_last() =~= fv.take(i as int));
        assert(fv.take(i + 1).last() == fields@[i as int]@);
        let v = default_value_for_field(&fields[i]);
        if !eq_str(chars_of(v).as_slice(), "undefined") {
            let mut l = chars_of("    ");
            push_all(&mut l, chars_of(fields[i].json_name.as_str()).as_slice());
            push_str(&mut l, ": ");
            push_str(&mut l, v);
            let ghost before = views(ls@);
            ls.push(l);
            assert(views(ls@) =~= before.push(l@));
        }
    }
    assert(fv.take(fields@.len() as int) =~= fv);
    if ls.len() == 0 {
        return None;
    }
    let mut r = chars_of("{\n");
    push_all(&mut r, join_with(ls.as_slice(), ",\n").as_slice());
    push_str(&mut r, "\n  }");
    Some(string_of(r.as_slice()))
}

/// A field of the entity's TypeScript interface.
#[derive(Debug, Clone, PartialEq, Eq)]
pub struct InterfaceFieldTemplate {
    pub json_name: String,
    pub ts_type: String,
    pub is_optional: bool,
}

pub open spec fn interface_view(t: InterfaceFieldTemplate) -> (Seq<char>, Seq<char>, bool) {
    (t.json_name@, t.ts_type@, t.is_optional)
}

/// Interface fields: the non-audit fields, optional when nullable or not required.
pub open spec fn interface_fields(fields: Seq<ModelFieldSpec>) -> Seq<(Seq<char>, Seq<char>, bool)>
    decreases fields.len(),
{
    if fields.len() == 0 {
        Seq::empty()
    } else {
        let r = interface_fields(fields.drop_last());
        let f = fields.last();
        if !is_audit_json(f.json_name) {
            r.push((f.json_name, f.ts_type, f.is_optional || !f.required))
        } else {
            r
        }
    }
}

pub fn build_interface_fields(entity: &ParsedEntity) -> (r: Vec<InterfaceFieldTemplate>)
    ensures
        Seq::new(r@.len(), |i: int| interface_view(r@[i])) == interface_fields(model_field_views(entity.fields@)),
{
    let ghost fv = model_field_views(entity.fields@);
    let mut out: Vec<InterfaceFieldTemplate> = Vec::new();
    assert(fv.take(0) =~= Seq::<ModelFieldSpec>::empty());
    assert(Seq::new(out@.len(), |i: int| interface_view(out@[i])) =~= Seq::<(Seq<char>, Seq<char>, bool)>::empty());
    for i in 0..entity.fields.len()
        invariant
            fv == model_field_views(entity.fields@),
            Seq::new(out@.len(), |k: int| interface_view(out@[k])) == interface_fields(fv.take(i as int)),
    {
        let f = &entity.fields[i];
        assert(fv.take(i + 1).drop_last() =~= fv.take(i as int));
        assert(fv.take(i + 1).last() == f@);
        if !is_audit_field(chars_of(f.json_name.as_str()).as_slice()) {
            let ghost before = Seq::new(out@.len(), |k: int| interface_view(out@[k]));
            let t = InterfaceFieldTemplate {
                json_name: f.json_name.clone(),
                ts_type: f.ts_type.clone(),
                is_optional: f.is_optional || !f.required,
            };
            out.push(t);
            assert(Seq::new(out@.len(), |k: int| interface_view(out@[k])) =~= before.push(interface_view(t)));
        }
    }
    assert(fv.take(entity.fields@.len() as int) =~= fv);
    out
}

/// Some field has JSON name `n`.
pub open spec fn has_json(fields: Seq<ModelFieldSpec>, n: Seq<char>) -> bool {
    exists|i: int| 0 <= i < fields.len() && fields[i].json_name == n
}

fn has_json_exec(fields: &Vec<ModelField>, n: &[char]) -> (r: bool)
    ensures
        r == has_json(model_field_views(fields@), n@),
{
    let ghost fv = model_field_views(fields@);
    let mut i: usize = 0;
    while i < fields.len()
        invariant
            i <= fields@.len(),
            fv == model_field_views(fields@),
            forall|j: int| 0 <= j < i ==> fv[j].json_name != n@,
        decreases fields@.len() - i,
    {
        assert(fv[i as int] == fields@[i as int]@);
        if crate::text::seq_eq(chars_of(fields[i].json_name.as_str()).as_slice(), n) {
            return true;
        }
        i += 1;
    }
    false
}

pub open spec fn audit_names() -> Seq<Seq<char>> {
    seq!["id"@, "createdAt"@, "updatedAt"@, "createdBy"@, "updatedBy"@, "createdByName"@, "updatedByName"@]
}

/// Interface names that are not parameters, in order.
pub open spec fn omitted_names(ifs: Seq<(Seq<char>, Seq<char>, bool)>, params: Seq<ModelFieldSpec>) -> Seq<Seq<char>>
    decreases ifs.len(),
{
    if ifs.len() == 0 {
        Seq::empty()
    } else {
        let r = omitted_names(ifs.drop_last(), params);
        if has_json(params, ifs.last().0) {
            r
        } else {
            r.push(ifs.last().0)
        }
    }
}

pub open spec fn quoted_all(v: Seq<Seq<char>>) -> Seq<Seq<char>> {
    Seq::new(v.len(), |i: int| "\""@ + v[i] + "\""@)
}

/// Names left out of the parameter type: the audit names, then the interface fields that
/// are no parameters; quoted and joined by ` | `.
pub open spec fn param_omit_union(fields: Seq<ModelFieldSpec>, params: Seq<ModelFieldSpec>) -> Seq<char> {
    join(quoted_all(audit_names() + omitted_names(interface_fields(fields), params)), " | "@)
}

pub fn build_param_omit_union(entity: &ParsedEntity) -> (r: String)
    ensures
        r@ == param_omit_union(model_field_views(entity.fields@), model_field_views(entity.param_fields@)),
{
    let ifs = build_interface_fields(entity);
    let ghost iv = Seq::new(ifs@.len(), |i: int| interface_view(ifs@[i]));
    let mut names: Vec<Vec<char>> = Vec::new();
    let lits = ["id", "createdAt", "updatedAt", "createdBy", "updatedBy", "createdByName", "updatedByName"];
    for k in 0..7
        invariant
            lits@.len() == 7,
            lits@[0]@ == "id"@,
            lits@[1]@ == "createdAt"@,
            lits@[2]@ == "updatedAt"@,
            lits@[3]@ == "createdBy"@,
            lits@[4]@ == "updatedBy"@,
            lits@[5]@ == "createdByName"@,
            lits@[6]@ == "updatedByName"@,
            views(names@) == quoted_all(audit_names().take(k as int)),
    {
        let mut l = chars_of("\"");
        push_str(&mut l, lits[k]);
        push_str(&mut l, "\"");
        let ghost before = views(names@);
        names.push(l);
        assert(views(names@) =~= before.push(l@));
        assert(quoted_all(audit_names().take(k + 1)) =~= quoted_all(audit_names().take(k as int)).push(
            "\""@ + audit_names()[k as int] + "\""@,
        ));
    }
    assert(audit_names().take(7) =~= audit_names());
    let ghost head = views(names@);
    assert(iv.take(0) =~= Seq::<(Seq<char>, Seq<char>, bool)>::empty());
    assert(quoted_all(omitted_names(iv.take(0), model_field_views(entity.param_fields@))) =~= Seq::<
        Seq<char>,
    >::empty());
    for i in 0..ifs.len()
        invariant
            iv == Seq::new(ifs@.len(), |i: int| interface_view(ifs@[i])),
            views(names@) == head + quoted_all(omitted_names(iv.take(i as int), model_field_views(entity.param_fields@))),
    {
        assert(iv.take(i + 1).drop_last() =~= iv.take(i as int));
        assert(iv.take(i + 1).last() == iv[i as int]);
        let n = chars_of(ifs[i].json_name.as_str());
        let ghost before = views(names@);
        if !has_json_exec(&entity.param_fields, n.as_slice()) {
            let mut l = chars_of("\"");
            push_all(&mut l, n.as_slice());
            push_str(&mut l, "\"");
            names.push(l);
            assert(views(names@) =~= before.push(l@));
        }
        assert(views(names@) =~= head + quoted_all(
            omitted_names(iv.take(i + 1), model_field_views(entity.param_fields@)),
        ));
    }
    assert(iv.take(ifs@.len() as int) =~= iv);
    assert(views(names@) =~= quoted_all(
        audit_names() + omitted_names(interface_fields(model_field_views(entity.fields@)), model_field_views(entity.param_fields@)),
    ));
    string_of(join_with(names.as_slice(), " | ").as_slice())
}

/// JSON names that hold identifiers.
pub open spec fn identifier_name(n: Seq<char>) -> bool {
    n == "id"@ || has_suffix(n, "Id"@) || has_suffix(n, "ID"@)
}

/// The validator of a text field, restricted to letters and digits for identifiers.
pub open spec fn identifier_validator(f: ModelFieldSpec, base: Seq<char>) -> Seq<char> {
    if identifier_name(f.json_name) {
        base + ".regex(/^[a-z0-9]+$/i, \"只能包含字母和数字\")"@
    } else {
        base
    }
}

pub fn build_identifier_validator(field: &ModelField, base: &[char]) -> (r: Vec<char>)
    ensures
        r@ == identifier_validator(field@, base@),
{
    let j = chars_of(field.json_name.as_str());
    let mut r = crate::text::slice_of(base, 0, base.len());
    assert(base@.subrange(0, base@.len() as int) =~= base@);
    if eq_str(j.as_slice(), "id") || ends_with_str(j.as_slice(), "Id") || ends_with_str(j.as_slice(), "ID") {
        push_str(&mut r, ".regex(/^[a-z0-9]+$/i, \"只能包含字母和数字\")");
    }
    r
}

/// A field of the create/update form.
#[derive(Debug, Clone, PartialEq, Eq)]
pub struct FormFieldTemplate {
    pub json_name: String,
    pub label: String,
    pub component_kind: String,
    pub span: usize,
    pub required: bool,
    pub validator_mode: Option<String>,
    pub validator_expr: Option<String>,
    pub true_label: String,
    pub false_label: String,
}

pub ghost struct FormFieldSpec {
    pub json_name: Seq<char>,
    pub label: Seq<char>,
    pub component_kind: Seq<char>,
    pub span: usize,
    pub required: bool,
    pub validator_mode: Option<Seq<char>>,
    pub validator_expr: Option<Seq<char>>,
    pub true_label: Seq<char>,
    pub false_label: Seq<char>,
}

impl View for FormFieldTemplate {
    type V = FormFieldSpec;

    open spec fn view(&self) -> FormFieldSpec {
        FormFieldSpec {
            json_name: self.json_name@,
            label: self.label@,
            component_kind: self.component_kind@,
            span: self.span,
            required: self.required,
            validator_mode: crate::codegen::types::opt_view(self.validator_mode),
            validator_expr: crate::codegen::types::opt_view(self.validator_expr),
            true_label: self.true_label@,
            false_label: self.false_label@,
        }
    }
}

pub open spec fn max_or_zero(m: Option<usize>) -> usize {
    match m {
        Some(v) => v,
        None => 0,
    }
}

/// Validation of a text field: required or not, identifier restriction, length limit and
/// optionality.
pub open spec fn string_validator(f: ModelFieldSpec) -> Seq<char> {
    let base = if f.required { "z.string(\"必须\")"@ } else { "z.string()"@ };
    let with_id = identifier_validator(f, base);
    let with_max = match f.max_length {
        Some(m) => with_id + ".max("@ + dec(m as nat) + ", \"最多"@ + dec(m as nat) + "个字符\")"@,
        None => with_id,
    };
    if !f.required || f.is_optional {
        with_max + ".nullish()"@
    } else {
        with_max
    }
}

/// The form field of a parameter: its component and width, when it validates, the
/// validation expression and the labels of a switch.
pub open spec fn form_field(f: ModelFieldSpec) -> FormFieldSpec {
    let b = is_bool_type(f.go_type);
    let n = is_number_type(f.go_type);
    let (kind, span) = if f.is_json {
        ("textarea"@, 24usize)
    } else if b {
        ("bool"@, 12usize)
    } else if n {
        ("number"@, 12usize)
    } else if max_or_zero(f.max_length) > 128 || f.json_name == "remark"@ {
        ("textarea"@, 24usize)
    } else {
        ("text"@, 12usize)
    };
    FormFieldSpec {
        json_name: f.json_name,
        label: f.label,
        component_kind: kind,
        span,
        required: f.required,
        validator_mode: if f.is_json {
            None
        } else if n || b {
            Some("onChange"@)
        } else {
            Some("onBlur"@)
        },
        validator_expr: if f.is_json {
            None
        } else if b {
            Some(if f.required { "z.boolean(\"必须\")"@ } else { "z.boolean().nullish()"@ })
        } else if n {
            Some(if f.required { "z.number(\"必须是数字\")"@ } else { "z.number().nullish()"@ })
        } else {
            Some(string_validator(f))
        },
        true_label: if f.json_name == "isActive"@ { "启用"@ } else { "是"@ },
        false_label: if f.json_name == "isActive"@ { "禁用"@ } else { "否"@ },
    }
}

fn string_validator_exec(field: &ModelField) -> (r: Vec<char>)
    ensures
        r@ == string_validator(field@),
{
    let base = if field.required { chars_of("z.string(\"必须\")") } else { chars_of("z.string()") };
    let mut expr = build_identifier_validator(field, base.as_slice());
    match field.max_length {
        Some(m) => {
            push_str(&mut expr, ".max(");
            push_dec(&mut expr, m as u64);
            push_str(&mut expr, ", \"最多");
            push_dec(&mut expr, m as u64);
            push_str(&mut expr, "个字符\")");
        },
        None => {},
    }
    if !field.required || field.is_optional {
        push_str(&mut expr, ".nullish()");
    }
    expr
}

pub fn build_form_field_template(field: &ModelField) -> (r: FormFieldTemplate)
    ensures
        r@ == form_field(field@),
{
    let b = is_bool_field(field);
    let n = is_number_field(field);
    let j = chars_of(field.json_name.as_str());
    let max = match field.max_length {
        Some(v) => v,
        None => 0,
    };
    let (kind, span): (&str, usize) = if field.is_json {
        ("textarea", 24)
    } else if b {
        ("bool", 12)
    } else if n {
        ("number", 12)
    } else if max > 128 || eq_str(j.as_slice(), "remark") {
        ("textarea", 24)
    } else {
        ("text", 12)
    };
    let validator_mode = if field.is_json {
        None
    } else if n || b {
        Some("onChange".to_owned())
    } else {
        Some("onBlur".to_owned())
    };
    let validator_expr = if field.is_json {
        None
    } else if b {
        Some(if field.required { "z.boolean(\"必须\")".to_owned() } else { "z.boolean().nullish()".to_owned() })
    } else if n {
        Some(if field.required { "z.number(\"必须是数字\")".to_owned() } else { "z.number().nullish()".to_owned() })
    } else {
        Some(string_of(string_validator_exec(field).as_slice()))
    };
    let active = eq_str(j.as_slice(), "isActive");
    FormFieldTemplate {
        json_name: field.json_name.clone(),
        label: field.label.clone(),
        component_kind: kind.to_owned(),
        span,
        required: field.required,
        validator_mode,
        validator_expr,
        true_label: if active { "启用".to_owned() } else { "是".to_owned() },
        false_label: if active { "禁用".to_owned() } else { "否".to_owned() },
    }
}

pub open spec fn form_field_views(v: Seq<FormFieldTemplate>) -> Seq<FormFieldSpec> {
    Seq::new(v.len(), |i: int| v[i]@)
}

/// Form fields of the entity's parameters, in order.
pub fn build_form_fields(entity: &ParsedEntity) -> (r: Vec<FormFieldTemplate>)
    ensures
        form_field_views(r@) == model_field_views(entity.param_fields@).map_values(|f: ModelFieldSpec| form_field(f)),
{
    let ghost want = model_field_views(entity.param_fields@).map_values(|f: ModelFieldSpec| form_field(f));
    let mut out: Vec<FormFieldTemplate> = Vec::new();
    for i in 0..entity.param_fields.len()
        invariant
            want == model_field_views(entity.param_fields@).map_values(|f: ModelFieldSpec| form_field(f)),
            form_field_views(out@) == want.take(i as int),
    {
        let t = build_form_field_template(&entity.param_fields[i]);
        let ghost before = form_field_views(out@);
        out.push(t);
        assert(form_field_views(out@) =~= before.push(t@));
        assert(want.take(i + 1) =~= want.take(i as int).push(want[i as int]));
    }
    assert(want.take(entity.param_fields@.len() as int) =~= want);
    out
}

/// A field of the basic search form.
#[derive(Debug, Clone, PartialEq, Eq)]
pub struct SearchFieldTemplate {
    pub json_name: String,
    pub label: String,
    pub placeholder: String,
}

pub open spec fn search_view(t: SearchFieldTemplate) -> (Seq<char>, Seq<char>, Seq<char>) {
    (t.json_name@, t.label@, t.placeholder@)
}

/// Fields searched: only `keyword` when the search struct has it, else all of them.
pub open spec fn search_sources(fields: Seq<ModelFieldSpec>) -> Seq<ModelFieldSpec> {
    if has_json(fields, "keyword"@) {
        fields.filter(keyword_only())
    } else {
        fields
    }
}

pub open spec fn keyword_only() -> spec_fn(ModelFieldSpec) -> bool {
    |f: ModelFieldSpec| f.json_name == "keyword"@
}

pub open spec fn search_field(f: ModelFieldSpec) -> (Seq<char>, Seq<char>, Seq<char>) {
    (f.json_name, f.label, if f.json_name == "keyword"@ { "关键词"@ } else { "请输入"@ + f.label })
}

pub fn build_search_fields(entity: &ParsedEntity) -> (r: Vec<SearchFieldTemplate>)
    ensures
        Seq::new(r@.len(), |i: int| search_view(r@[i])) == search_sources(model_field_views(entity.search_fields@)).map_values(
            |f: ModelFieldSpec| search_field(f),
        ),
{
    let ghost fv = model_field_views(entity.search_fields@);
    let only_keyword = has_json_exec(&entity.search_fields, chars_of("keyword").as_slice());
    let ghost kept = if only_keyword { fv.filter(keyword_only()) } else { fv };
    let mut out: Vec<SearchFieldTemplate> = Vec::new();
    assert(fv.take(0) =~= Seq::<ModelFieldSpec>::empty());
    assert(Seq::new(out@.len(), |i: int| search_view(out@[i])) =~= Seq::<(Seq<char>, Seq<char>, Seq<char>)>::empty());
    for i in 0..entity.search_fields.len()
        invariant
            fv == model_field_views(entity.search_fields@),
            Seq::new(out@.len(), |k: int| search_view(out@[k])) == (if only_keyword {
                fv.take(i as int).filter(keyword_only())
            } else {
                fv.take(i as int)
            }).map_values(|f: ModelFieldSpec| search_field(f)),
    {
        let f = &entity.search_fields[i];
        let ghost before = Seq::new(out@.len(), |k: int| search_view(out@[k]));
        proof {
            assert(fv.take(i + 1).drop_last() =~= fv.take(i as int));
            assert(fv.take(i + 1).last() == f@);
            fv.take(i as int).lemma_filter_push(f@, keyword_only());
            assert(fv.take(i as int).push(f@) =~= fv.take(i + 1));
        }
        let j = chars_of(f.json_name.as_str());
        let is_keyword = eq_str(j.as_slice(), "keyword");
        if !only_keyword || is_keyword {
            let placeholder = if is_keyword {
                "关键词".to_owned()
            } else {
                let mut p = chars_of("请输入");
                push_all(&mut p, chars_of(f.label.as_str()).as_slice());
                string_of(p.as_slice())
            };
            let t = SearchFieldTemplate { json_name: f.json_name.clone(), label: f.label.clone(), placeholder };
            out.push(t);
            assert(Seq::new(out@.len(), |k: int| search_view(out@[k])) =~= before.push(search_view(t)));
        }
        assert(Seq::new(out@.len(), |k: int| search_view(out@[k])) =~= (if only_keyword {
            fv.take(i + 1).filter(keyword_only())
        } else {
            fv.take(i + 1)
        }).map_values(|g: ModelFieldSpec| search_field(g)));
    }
    assert(fv.take(entity.search_fields@.len() as int) =~= fv);
    out
}

/// A column of the list page.
#[derive(Debug, Clone, PartialEq, Eq)]
pub struct RouteFieldTemplate {
    pub json_name: String,
    pub label: String,
    pub render_kind: String,
    pub width: usize,
    pub align: Option<String>,
    pub should_cell_update: bool,
    pub true_label: String,
    pub false_label: String,
}

pub ghost struct RouteFieldSpec {
    pub json_name: Seq<char>,
    pub label: Seq<char>,
    pub render_kind: Seq<char>,
    pub width: usize,
    pub align: Option<Seq<char>>,
    pub should_cell_update: bool,
    pub true_label: Seq<char>,
    pub false_label: Seq<char>,
}

impl View for RouteFieldTemplate {
    type V = RouteFieldSpec;

    open spec fn view(&self) -> RouteFieldSpec {
        RouteFieldSpec {
            json_name: self.json_name@,
            label: self.label@,
            render_kind: self.render_kind@,
            width: self.width,
            align: crate::codegen::types::opt_view(self.align),
            should_cell_update: self.should_cell_update,
            true_label: self.true_label@,
            false_label: self.false_label@,
        }
    }
}

pub open spec fn route_views(v: Seq<RouteFieldTemplate>) -> Seq<RouteFieldSpec> {
    Seq::new(v.len(), |i: int| v[i]@)
}

/// A plain column with a fixed label and width.
pub open spec fn plain_column(json_name: Seq<char>, label: Seq<char>, width: usize, update: bool) -> RouteFieldSpec {
    RouteFieldSpec {
        json_name,
        label,
        render_kind: "none"@,
        width,
        align: None,
        should_cell_update: update,
        true_label: Seq::empty(),
        false_label: Seq::empty(),
    }
}

/// The column of a field: how it renders, its width and alignment.
pub open spec fn route_column(f: ModelFieldSpec) -> RouteFieldSpec {
    let b = is_bool_type(f.go_type);
    let n = is_number_type(f.go_type);
    let long = f.json_name == "remark"@ || max_or_zero(f.max_length) > 64;
    RouteFieldSpec {
        json_name: f.json_name,
        label: f.label,
        render_kind: if b {
            "bool"@
        } else if f.is_json {
            "json"@
        } else if long {
            "text"@
        } else {
            "none"@
        },
        width: if b || n {
            100
        } else if f.is_json || long {
            240
        } else {
            160
        },
        align: if b || n { Some("center"@) } else { None },
        should_cell_update: false,
        true_label: if f.json_name == "isActive"@ { "启用"@ } else { "是"@ },
        false_label: if f.json_name == "isActive"@ { "禁用"@ } else { "否"@ },
    }
}

pub open spec fn not_audit() -> spec_fn(ModelFieldSpec) -> bool {
    |f: ModelFieldSpec| !is_audit_json(f.json_name)
}

pub open spec fn route_column_fn() -> spec_fn(ModelFieldSpec) -> RouteFieldSpec {
    |f: ModelFieldSpec| route_column(f)
}

/// Columns of the list page: `id` first when it is a parameter and a field, then the
/// non-audit fields, then the creator and creation time when the entity has them.
pub open spec fn route_fields(fields: Seq<ModelFieldSpec>, params: Seq<ModelFieldSpec>) -> Seq<RouteFieldSpec> {
    (if has_json(params, "id"@) && has_json(fields, "id"@) {
        seq![plain_column("id"@, "ID"@, 120, false)]
    } else {
        Seq::empty()
    }) + fields.filter(not_audit()).map_values(route_column_fn()) + (if has_json(fields, "createdByName"@) {
        seq![plain_column("createdByName"@, "创建人"@, 120, true)]
    } else {
        Seq::empty()
    }) + (if has_json(fields, "createdAt"@) {
        seq![plain_column("createdAt"@, "创建时间"@, 180, true)]
    } else {
        Seq::empty()
    })
}

fn plain_column_exec(json_name: &str, label: &str, width: usize, update: bool) -> (r: RouteFieldTemplate)
    ensures
        r@ == plain_column(json_name@, label@, width, update),
{
    RouteFieldTemplate {
        json_name: json_name.to_owned(),
        label: label.to_owned(),
        render_kind: "none".to_owned(),
        width,
        align: None,
        should_cell_update: update,
        true_label: String::new(),
        false_label: String::new(),
    }
}

pub fn build_route_column(field: &ModelField) -> (r: RouteFieldTemplate)
    ensures
        r@ == route_column(field@),
{
    let b = is_bool_field(field);
    let n = is_number_field(field);
    let j = chars_of(field.json_name.as_str());
    let max = match field.max_length {
        Some(v) => v,
        None => 0,
    };
    let long = eq_str(j.as_slice(), "remark") || max > 64;
    let active = eq_str(j.as_slice(), "isActive");
    RouteFieldTemplate {
        json_name: field.json_name.clone(),
        label: field.label.clone(),
        render_kind: if b {
            "bool".to_owned()
        } else if field.is_json {
            "json".to_owned()
        } else if long {
            "text".to_owned()
        } else {
            "none".to_owned()
        },
        width: if b || n {
            100
        } else if field.is_json || long {
            240
        } else {
            160
        },
        align: if b || n { Some("center".to_owned()) } else { None },
        should_cell_update: false,
        true_label: if active { "启用".to_owned() } else { "是".to_owned() },
        false_label: if active { "禁用".to_owned() } else { "否".to_owned() },
    }
}

fn push_route(out: &mut Vec<RouteFieldTemplate>, t: RouteFieldTemplate)
    ensures
        route_views(final(out)@) == route_views(old(out)@).push(t@),
{
    let ghost before = route_views(out@);
    out.push(t);
    assert(route_views(out@) =~= before.push(t@));
}

pub fn build_route_fields(entity: &ParsedEntity) -> (r: Vec<RouteFieldTemplate>)
    ensures
        route_views(r@) == route_fields(model_field_views(entity.fields@), model_field_views(entity.param_fields@)),
{
    proof {
        reveal_strlit("id");
    }
    let ghost fv = model_field_views(entity.fields@);
    let mut out: Vec<RouteFieldTemplate> = Vec::new();
    let id = chars_of("id");
    if has_json_exec(&entity.param_fields, id.as_slice()) && has_json_exec(&entity.fields, id.as_slice()) {
        push_route(&mut out, plain_column_exec("id", "ID", 120, false));
    }
    let ghost head = route_views(out@);
    assert(head =~= (if has_json(model_field_views(entity.param_fields@), "id"@) && has_json(fv, "id"@) {
        seq![plain_column("id"@, "ID"@, 120, false)]
    } else {
        Seq::<RouteFieldSpec>::empty()
    }));
    assert(fv.take(0).filter(not_audit()) =~= Seq::<ModelFieldSpec>::empty());
    assert(route_views(out@) =~= head + fv.take(0).filter(not_audit()).map_values(route_column_fn()));
    for i in 0..entity.fields.len()
        invariant
            fv == model_field_views(entity.fields@),
            route_views(out@) == head + fv.take(i as int).filter(not_audit()).map_values(route_column_fn()),
    {
        let f = &entity.fields[i];
        proof {
            assert(fv.take(i + 1).drop_last() =~= fv.take(i as int));
            assert(fv.take(i + 1).last() == f@);
            fv.take(i as int).lemma_filter_push(f@, not_audit());
            assert(fv.take(i as int).push(f@) =~= fv.take(i + 1));
        }
        let ghost before = route_views(out@);
        if !is_audit_field(chars_of(f.json_name.as_str()).as_slice()) {
            push_route(&mut out, build_route_column(f));
        }
        assert(route_views(out@) =~= head + fv.take(i + 1).filter(not_audit()).map_values(route_column_fn()));
    }
    assert(fv.take(entity.fields@.len() as int) =~= fv);
    let ghost mid = route_views(out@);
    if has_json_exec(&entity.fields, chars_of("createdByName").as_slice()) {
        push_route(&mut out, plain_column_exec("createdByName", "创建人", 120, true));
    }
    if has_json_exec(&entity.fields, chars_of("createdAt").as_slice()) {
        push_route(&mut out, plain_column_exec("createdAt", "创建时间", 180, true));
    }
    assert(route_views(out@) =~= route_fields(fv, model_field_views(entity.param_fields@)));
    out
}

/// Files generated for an entity, under the front-end root, with their templates.
pub open spec fn output_paths(module_name: Seq<char>, snake_name: Seq<char>) -> Seq<(Seq<char>, Seq<char>)> {
    let m = module_name;
    let f = frontend_name(snake_name);
    let page = "pages/_layout/"@ + m + "/"@ + f;
    seq![
        ("apis/"@ + m + "/"@ + f + ".ts"@, "api.ts"@),
        (page + "/components/basic-search.tsx"@, "basic_search.tsx"@),
        (page + "/components/form.tsx"@, "form.tsx"@),
        (page + "/helpers/index.ts"@, "helpers.ts"@),
        (page + "/route.tsx"@, "route.tsx"@),
    ]
}

pub open spec fn spec_pair_views(v: Seq<(String, &'static str)>) -> Seq<(Seq<char>, Seq<char>)> {
    Seq::new(v.len(), |i: int| (v[i].0@, v[i].1@))
}

fn page_path(m: &[char], f: &[char], tail: &str) -> (r: String)
    ensures
        r@ == "pages/_layout/"@ + m@ + "/"@ + f@ + tail@,
{
    let mut p = chars_of("pages/_layout/");
    push_all(&mut p, m);
    push_str(&mut p, "/");
    push_all(&mut p, f);
    push_str(&mut p, tail);
    string_of(p.as_slice())
}

pub fn output_specs(entity: &ParsedEntity) -> (r: Vec<(String, &'static str)>)
    ensures
        spec_pair_views(r@) == output_paths(entity.module_name@, entity.snake_name@),
{
    let m = chars_of(entity.module_name.as_str());
    let f = frontend_entity_name(entity);
    let mut api = chars_of("apis/");
    push_all(&mut api, m.as_slice());
    push_str(&mut api, "/");
    push_all(&mut api, f.as_slice());
    push_str(&mut api, ".ts");
    let mut out: Vec<(String, &'static str)> = Vec::new();
    out.push((string_of(api.as_slice()), "api.ts"));
    out.push((page_path(m.as_slice(), f.as_slice(), "/components/basic-search.tsx"), "basic_search.tsx"));
    out.push((page_path(m.as_slice(), f.as_slice(), "/components/form.tsx"), "form.tsx"));
    out.push((page_path(m.as_slice(), f.as_slice(), "/helpers/index.ts"), "helpers.ts"));
    out.push((page_path(m.as_slice(), f.as_slice(), "/route.tsx"), "route.tsx"));
    assert(spec_pair_views(out@) =~= output_paths(entity.module_name@, entity.snake_name@));
    out
}

/// Names the page templates use for an entity.
#[derive(Debug, Clone, PartialEq, Eq)]
pub struct TemplateNames {
    pub entity_name: String,
    pub entity_file_name: String,
    pub entity_route_path: String,
    pub entity_key_name: String,
    pub camel_entity_name: String,
    pub crud_store_name: String,
    pub search_values_name: String,
    pub selected_rows_name: String,
    pub operation_button_group_name: String,
    pub action_button_group_name: String,
}

fn wrap(a: &str, b: &[char], c: &str) -> (r: String)
    ensures
        r@ == a@ + b@ + c@,
{
    let mut l = chars_of(a);
    push_all(&mut l, b);
    push_str(&mut l, c);
    string_of(l.as_slice())
}

pub fn template_names(entity: &ParsedEntity) -> (r: TemplateNames)
    ensures
        r.entity_name@ == entity.name@,
        r.entity_file_name@ == frontend_name(entity.snake_name@),
        r.entity_route_path@ == "/_layout/"@ + entity.module_name@ + "/"@ + frontend_name(entity.snake_name@),
        r.entity_key_name@ == entity.snake_name@,
        r.camel_entity_name@ == lowered_first(entity.name@),
        r.crud_store_name@ == "use"@ + entity.name@ + "CrudStore"@,
        r.search_values_name@ == "use"@ + entity.name@ + "SearchValues"@,
        r.selected_rows_name@ == "use"@ + entity.name@ + "SelectedRows"@,
        r.operation_button_group_name@ == ""@ + entity.name@ + "OperationButtonGroup"@,
        r.action_button_group_name@ == ""@ + entity.name@ + "ActionButtonGroup"@,
{
    let n = chars_of(entity.name.as_str());
    let f = frontend_entity_name(entity);
    let mut route = chars_of("/_layout/");
    push_all(&mut route, chars_of(entity.module_name.as_str()).as_slice());
    push_str(&mut route, "/");
    push_all(&mut route, f.as_slice());
    TemplateNames {
        entity_name: entity.name.clone(),
        entity_file_name: string_of(f.as_slice()),
        entity_route_path: string_of(route.as_slice()),
        entity_key_name: entity.snake_name.clone(),
        camel_entity_name: string_of(lower_first(n.as_slice()).as_slice()),
        crud_store_name: wrap("use", n.as_slice(), "CrudStore"),
        search_values_name: wrap("use", n.as_slice(), "SearchValues"),
        selected_rows_name: wrap("use", n.as_slice(), "SelectedRows"),
        operation_button_group_name: wrap("", n.as_slice(), "OperationButtonGroup"),
        action_button_group_name: wrap("", n.as_slice(), "ActionButtonGroup"),
    }
}

/// The line that re-exports an entity's API module.
pub open spec fn export_line(module_name: Seq<char>, snake_name: Seq<char>) -> Seq<char> {
    "export * from \"./"@ + module_name + "/"@ + frontend_name(snake_name) + "\";"@
}

/// The barrel already has the line (ignoring surrounding blanks).
pub open spec fn barrel_has(content: Seq<char>, line: Seq<char>) -> bool {
    exists|i: int| 0 <= i < lines_of(content).len() && trim(lines_of(content)[i]) == line
}

/// New barrel content with the line appended on a line of its own, or nothing when the
/// line is there already.
pub open spec fn barrel_update(content: Seq<char>, line: Seq<char>) -> Option<Seq<char>> {
    if barrel_has(content, line) {
        None
    } else {
        let base = if content.len() > 0 && content.last() != '\n' { content + "\n"@ } else { content };
        Some(base + line + "\n"@)
    }
}

pub fn updated_api_barrel(content: &str, entity: &ParsedEntity) -> (r: Option<String>)
    ensures
        match barrel_update(content@, export_line(entity.module_name@, entity.snake_name@)) {
            Some(c) => r is Some && r->0@ == c,
            None => r is None,
        },
{
    proof {
        reveal_strlit("\n");
    }
    let f = frontend_entity_name(entity);
    let mut line = chars_of("export * from \"./");
    push_all(&mut line, chars_of(entity.module_name.as_str()).as_slice());
    push_str(&mut line, "/");
    push_all(&mut line, f.as_slice());
    push_str(&mut line, "\";");
    assert(line@ =~= export_line(entity.module_name@, entity.snake_name@));
    let c = chars_of(content);
    let ls = lines(c.as_slice());
    let mut i: usize = 0;
    while i < ls.len()
        invariant
            i <= ls@.len(),
            views(ls@) == lines_of(c@),
            c@ == content@,
            line@ == export_line(entity.module_name@, entity.snake_name@),
            forall|j: int| 0 <= j < i ==> trim(lines_of(c@)[j]) != line@,
        decreases ls@.len() - i,
    {
        assert(views(ls@)[i as int] == ls@[i as int]@);
        if crate::text::seq_eq(trimmed(ls[i].as_slice()).as_slice(), line.as_slice()) {
            assert(trim(lines_of(c@)[i as int]) == line@);
            return None;
        }
        i += 1;
    }
    let mut out = c;
    if out.len() > 0 && out[out.len() - 1] != '\n' {
        out.push('\n');
        assert(out@ =~= content@ + "\n"@);
    }
    push_all(&mut out, line.as_slice());
    out.push('\n');
    assert(out@ =~= barrel_update(content@, line@)->0);
    Some(string_of(out.as_slice()))
}

/// `s` ends with a closing quote and bracket, `")`.
spec fn ends_quoted_call(s: Seq<char>) -> bool {
    s.len() >= 2 && s[s.len() - 2] == '"' && s[s.len() - 1] == ')'
}

proof fn lemma_ends_quoted_call_concat(a: Seq<char>, b: Seq<char>)
    requires
        ends_quoted_call(b),
    ensures
        ends_quoted_call(a + b),
{
    assert((a + b)[(a + b).len() - 2] == b[b.len() - 2]);
    assert((a + b)[(a + b).len() - 1] == b[b.len() - 1]);
}

proof fn lemma_quoted_call_not_nullish(s: Seq<char>)
    requires
        ends_quoted_call(s),
    ensures
        !has_suffix(s, ".nullish()"@),
{
    reveal_strlit(".nullish()");
    if has_suffix(s, ".nullish()"@) {
        assert(s.skip(s.len() - 10)[8] == s[s.len() - 2]);
    }
}

/// A text field's validator without `.nullish()` when it is required and not optional.
proof fn lemma_required_text_validator(f: ModelFieldSpec)
    requires
        f.required,
        !f.is_optional,
    ensures
        ends_quoted_call(string_validator(f)),
{
    reveal_strlit("z.string(\"必须\")");
    reveal_strlit(".regex(/^[a-z0-9]+$/i, \"只能包含字母和数字\")");
    reveal_strlit("个字符\")");
    let base = "z.string(\"必须\")"@;
    let with_id = identifier_validator(f, base);
    if identifier_name(f.json_name) {
        lemma_ends_quoted_call_concat(base, ".regex(/^[a-z0-9]+$/i, \"只能包含字母和数字\")"@);
    }
    match f.max_length {
        Some(m) => {
            let pre = with_id + ".max("@ + dec(m as nat) + ", \"最多"@ + dec(m as nat);
            lemma_ends_quoted_call_concat(pre, "个字符\")"@);
        },
        None => {},
    }
}

/// A required form field has no `.nullish()` on its validator, unless it is a text field
/// that is also marked optional; a field that is not required always has one. JSON fields
/// are not validated.
pub proof fn law_form_validator_nullish(f: ModelFieldSpec)
    ensures
        f.is_json <==> form_field(f).validator_expr is None,
        !f.is_json && f.required && (!f.is_optional || is_number_type(f.go_type) || is_bool_type(f.go_type))
            ==> !has_suffix(form_field(f).validator_expr->Some_0, ".nullish()"@),
        !f.is_json && !f.required ==> has_suffix(form_field(f).validator_expr->Some_0, ".nullish()"@),
{
    reveal_strlit(".nullish()");
    reveal_strlit("z.boolean(\"必须\")");
    reveal_strlit("z.boolean().nullish()");
    reveal_strlit("z.number(\"必须是数字\")");
    reveal_strlit("z.number().nullish()");
    if !f.is_json {
        let v = form_field(f).validator_expr->Some_0;
        if f.required && (!f.is_optional || is_number_type(f.go_type) || is_bool_type(f.go_type)) {
            if !is_bool_type(f.go_type) && !is_number_type(f.go_type) {
                lemma_required_text_validator(f);
            }
            lemma_quoted_call_not_nullish(v);
        }
        if !f.required {
            if is_bool_type(f.go_type) {
                assert("z.boolean().nullish()"@.skip(11) =~= ".nullish()"@);
            } else if is_number_type(f.go_type) {
                assert("z.number().nullish()"@.skip(10) =~= ".nullish()"@);
            } else {
                let w = string_validator(f);
                assert(w.skip(w.len() - 10) =~= ".nullish()"@);
            }
        }
    }
}

/// A number field is validated as a number: with the message "必须是数字" when it is
/// required, and allowed to be empty otherwise.
pub proof fn law_number_field_validator(f: ModelFieldSpec)
    requires
        !f.is_json,
        is_number_type(f.go_type),
    ensures
        form_field(f).validator_expr == Some(
            if f.required { "z.number(\"必须是数字\")"@ } else { "z.number().nullish()"@ },
        ),
        form_field(f).component_kind == "number"@,
{
    reveal_strlit("bool");
    reveal_strlit("*bool");
    reveal_strlit("int");
    reveal_strlit("int32");
    reveal_strlit("int64");
    reveal_strlit("uint");
    reveal_strlit("uint32");
    reveal_strlit("uint64");
    reveal_strlit("*int");
    reveal_strlit("*int32");
    reveal_strlit("*int64");
    reveal_strlit("*uint");
    reveal_strlit("*uint32");
    reveal_strlit("*uint64");
    let g = f.go_type;
    assert(g.len() >= 2 && g[0] != 'b' && g[1] != 'b');
    if g == "bool"@ {
        assert(g[0] == 'b');
    }
    if g == "*bool"@ {
        assert(g[1] == 'b');
    }
}

} // verus!
