//! Entities and fields exchanged between the parsers and the generators.
use vstd::prelude::*;

verus! {

/// A field of a Go model, as the TypeScript generator sees it.
#[derive(Debug, Clone, PartialEq, Eq)]
pub struct ModelField {
    pub name: String,
    pub json_name: String,
    pub go_type: String,
    pub ts_type: String,
    pub label: String,
    pub required: bool,
    pub max_length: Option<usize>,
    pub is_optional: bool,
    pub is_json: bool,
}

/// A Go resource with its model and payload fields.
#[derive(Debug, Clone, PartialEq, Eq)]
pub struct ParsedEntity {
    pub name: String,
    pub snake_name: String,
    pub table_name: String,
    pub module_name: String,
    pub fields: Vec<ModelField>,
    pub search_fields: Vec<ModelField>,
    pub param_fields: Vec<ModelField>,
    pub rpc_path: String,
}

/// A column of a parsed `CREATE TABLE`.
#[derive(Debug, Clone, PartialEq, Eq)]
pub struct ParsedField {
    pub name: String,
    pub go_name: String,
    pub json_name: String,
    pub go_type: String,
    pub db_type: String,
    pub nullable: bool,
    pub is_primary_key: bool,
    pub default_value: Option<String>,
    pub comment: Option<String>,
    pub validate: Option<String>,
}

/// A parsed table.
#[derive(Debug, Clone, PartialEq, Eq)]
pub struct ParsedTable {
    pub table_name: String,
    pub entity_name: String,
    pub entity_label: Option<String>,
    pub fields: Vec<ParsedField>,
}

/// Audit columns that a generated model embeds.
#[derive(Debug, Clone, Copy, PartialEq, Eq, Structural)]
pub enum AuditType {
    FullAudited,
    FullTracked,
    CreationAudited,
    CreationTracked,
    NoAudit,
}

impl Default for AuditType {
    fn default() -> (r: AuditType)
        ensures
            r == AuditType::FullAudited,
    {
        AuditType::FullAudited
    }
}

/// Settings of one Go CRUD generation.
#[derive(Debug, Clone, PartialEq, Eq)]
pub struct GoCodeGenConfig {
    pub entity_name: String,
    pub module_dir: String,
    pub table_name: String,
    pub table_alias: String,
    pub rpc_path: String,
    pub go_module_prefix: String,
    pub output_dir: String,
    pub fields: Vec<ParsedField>,
    pub audit_type: AuditType,
    pub enable_find_page: bool,
    pub enable_create: bool,
    pub enable_update: bool,
    pub enable_delete: bool,
    pub enable_delete_many: bool,
    pub enable_sort: bool,
    pub enable_audit_user_names: bool,
    pub overwrite: bool,
}

/// Files written by a Go CRUD generation and the line that registers the resource.
#[derive(Debug, Clone, PartialEq, Eq)]
pub struct GeneratedGoCrudResult {
    pub generated_files: Vec<String>,
    pub module_registration_snippet: String,
}

/// Plain content of a model field.
pub ghost struct ModelFieldSpec {
    pub name: Seq<char>,
    pub json_name: Seq<char>,
    pub go_type: Seq<char>,
    pub ts_type: Seq<char>,
    pub label: Seq<char>,
    pub required: bool,
    pub max_length: Option<usize>,
    pub is_optional: bool,
    pub is_json: bool,
}

impl View for ModelField {
    type V = ModelFieldSpec;

    open spec fn view(&self) -> ModelFieldSpec {
        ModelFieldSpec {
            name: self.name@,
            json_name: self.json_name@,
            go_type: self.go_type@,
            ts_type: self.ts_type@,
            label: self.label@,
            required: self.required,
            max_length: self.max_length,
            is_optional: self.is_optional,
            is_json: self.is_json,
        }
    }
}

pub open spec fn model_field_views(v: Seq<ModelField>) -> Seq<ModelFieldSpec> {
    Seq::new(v.len(), |i: int| v[i]@)
}

/// Plain content of a parsed column.
pub ghost struct FieldSpec {
    pub name: Seq<char>,
    pub go_name: Seq<char>,
    pub json_name: Seq<char>,
    pub go_type: Seq<char>,
    pub db_type: Seq<char>,
    pub nullable: bool,
    pub is_primary_key: bool,
    pub default_value: Option<Seq<char>>,
    pub comment: Option<Seq<char>>,
    pub validate: Option<Seq<char>>,
}

pub open spec fn opt_view(o: Option<String>) -> Option<Seq<char>> {
    match o {
        Some(s) => Some(s@),
        None => None,
    }
}

impl View for ParsedField {
    type V = FieldSpec;

    open spec fn view(&self) -> FieldSpec {
        FieldSpec {
            name: self.name@,
            go_name: self.go_name@,
            json_name: self.json_name@,
            go_type: self.go_type@,
            db_type: self.db_type@,
            nullable: self.nullable,
            is_primary_key: self.is_primary_key,
            default_value: opt_view(self.default_value),
            comment: opt_view(self.comment),
            validate: opt_view(self.validate),
        }
    }
}

pub open spec fn field_views(v: Seq<ParsedField>) -> Seq<FieldSpec> {
    Seq::new(v.len(), |i: int| v[i]@)
}

/// Plain content of a parsed table.
pub ghost struct TableSpec {
    pub table_name: Seq<char>,
    pub entity_name: Seq<char>,
    pub entity_label: Option<Seq<char>>,
    pub fields: Seq<FieldSpec>,
}

impl View for ParsedTable {
    type V = TableSpec;

    open spec fn view(&self) -> TableSpec {
        TableSpec {
            table_name: self.table_name@,
            entity_name: self.entity_name@,
            entity_label: opt_view(self.entity_label),
            fields: field_views(self.fields@),
        }
    }
}

} // verus!
