use eidolon::codegen::go_parser::{
    build_parsed_entity, extract_module_and_entity, extract_rpc_path, go_type_to_ts_type, parse_field_line,
    parse_model_file, parse_payload_file, resource_rpc_path,
};

#[test]
fn test_go_type_to_ts_type() {
    assert_eq!(go_type_to_ts_type("string"), "string");
    assert_eq!(go_type_to_ts_type("*string"), "MaybeNull<string>");
    assert_eq!(go_type_to_ts_type("int64"), "number");
    assert_eq!(go_type_to_ts_type("map[string]any"), "Record<string, any>");
    assert_eq!(go_type_to_ts_type("CustomType"), "any");
}

#[test]
fn test_parse_field_line() {
    let line = r#"    Name string `json:"name" label:"名称" validate:"required,max=100"`"#;
    let result = parse_field_line(line);
    assert!(result.is_some());
    let (_name, json_name, _go_type, label, required, max_len) = result.expect("field should parse");
    assert_eq!(json_name, "name");
    assert_eq!(label, "名称");
    assert!(required);
    assert_eq!(max_len, Some(100));
}

#[test]
fn test_extract_module_and_entity() {
    let (module, entity) = extract_module_and_entity("/path/to/project/internal/sys/resource/app.go").unwrap();
    assert_eq!(module, "sys");
    assert_eq!(entity, "app");
}

#[test]
fn test_parse_model_file() {
    let content = r#"
type ProbationConfig struct {
    orm.BaseModel `bun:"table:hr_probation_config,alias:hpc"`
    orm.CreationAuditedModel
    Code string `json:"code" label:"编码" validate:"required"`
}
"#;
    let fields = parse_model_file(content, "ProbationConfig").unwrap();
    assert!(fields.iter().any(|field| field.json_name == "id"));
    assert!(fields.iter().any(|field| field.json_name == "createdBy"));
    assert!(fields.iter().any(|field| field.json_name == "code"));
}

#[test]
fn test_parse_payload_file() {
    let content = r#"
type AppSearch struct {
    Keyword string `json:"keyword" label:"关键词"`
}

type AppParams struct {
    Name string `json:"name" label:"名称" validate:"required,max=100"`
    Enabled bool `json:"enabled" label:"启用"`
}
"#;
    let (search_fields, param_fields) = parse_payload_file(content, "App").unwrap();
    assert_eq!(search_fields.len(), 1);
    assert_eq!(search_fields[0].json_name, "keyword");
    assert_eq!(param_fields.len(), 2);
    assert!(param_fields[0].required);
    assert_eq!(param_fields[0].max_length, Some(100));
}

#[test]
fn test_extract_rpc_path() {
    let content = r#"
var appResource = resource.NewResource[model.App, payload.AppSearch, payload.AppParams](
    resource.Config{
        Path: "smp/sys/app",
    },
)
"#;
    assert_eq!(extract_rpc_path(content), Some("smp/sys/app".to_string()));
}

#[test]
fn test_extract_rpc_path_from_new_rpc_resource() {
    let content = r#"
func NewProbationConfigResource() api.Resource {
    return &ProbationConfigResource{
        Resource: api.NewRPCResource("hr/probation/probation_config"),
    }
}
"#;
    assert_eq!(extract_rpc_path(content), Some("hr/probation/probation_config".to_string()));
}

#[test]
fn test_extract_module_and_entity_supports_nested_paths() {
    let (module, entity) =
        extract_module_and_entity("/path/to/project/internal/hr/probation/resource/probation_config.go").unwrap();
    assert_eq!(module, "hr/probation");
    assert_eq!(entity, "probation_config");
}

#[test]
fn rpc_path_falls_back_to_path_method() {
    let content = "func (r *AppResource) Path() string {\n    return \"smp/sys/app\"\n}\n";
    assert_eq!(extract_rpc_path(content), Some("smp/sys/app".to_string()));
    assert_eq!(extract_rpc_path("func Name() string { return \"x\" }"), None);
}

#[test]
fn module_path_accepts_backslashes_and_rejects_other_layouts() {
    let (module, entity) = extract_module_and_entity("C:\\work\\internal\\sys\\resource\\app.go").unwrap();
    assert_eq!(module, "sys");
    assert_eq!(entity, "app");
    assert!(extract_module_and_entity("/project/internal/sys/handler/app.go").is_err());
    assert!(extract_module_and_entity("/project/internal/sys/resource/app.rs").is_err());
}

#[test]
fn field_line_defaults_json_and_label_and_skips_dash() {
    let (name, json, go_type, label, required, max) = parse_field_line("  UserName *string").unwrap();
    assert_eq!(name, "UserName");
    assert_eq!(json, "user_name");
    assert_eq!(go_type, "*string");
    assert_eq!(label, "User Name");
    assert!(!required);
    assert_eq!(max, None);
    assert!(parse_field_line("  Secret string `json:\"-\"`").is_none());
    let (_, _, _, _, _, max) = parse_field_line("Age int `validate:\"max=x,max=+7\"` // years").unwrap();
    assert_eq!(max, Some(7));
}

#[test]
fn missing_model_struct_is_reported() {
    let error = parse_model_file("type Other struct {\n}\n", "App").unwrap_err();
    assert_eq!(error, "未找到 struct App 定义");
}

#[test]
fn entity_is_built_from_model_and_payload_sources() {
    let resource = "func NewProbationConfigResource() api.Resource {\n    return &ProbationConfigResource{\n        Resource: api.NewRPCResource(\"hr/probation/probation_config\"),\n    }\n}\n";
    let rpc = resource_rpc_path("probation_config.go", resource).unwrap();
    let model = "\ntype ProbationConfig struct {\n    orm.BaseModel `bun:\"table:hr_probation_config,alias:hpc\"`\n    orm.CreationAuditedModel\n    Name string `json:\"name\" label:\"名称\" validate:\"required\"`\n}\n";
    let payload = "\ntype ProbationConfigSearch struct {\n    Keyword string `json:\"keyword\" label:\"关键词\"`\n}\n\ntype ProbationConfigParams struct {\n    Name string `json:\"name\" label:\"名称\" validate:\"required\"`\n}\n";
    let entity = build_parsed_entity("hr/probation".to_string(), "probation_config", rpc, model, Some(payload)).unwrap();
    assert_eq!(entity.name, "ProbationConfig");
    assert_eq!(entity.module_name, "hr/probation");
    assert_eq!(entity.table_name, "hr_probation_config");
    assert_eq!(entity.rpc_path, "hr/probation/probation_config");
    assert_eq!(entity.search_fields.len(), 1);
    assert_eq!(entity.param_fields.len(), 1);
    assert!(entity.fields.iter().any(|field| field.json_name == "createdBy"));
    assert!(entity.fields.iter().any(|field| field.json_name == "name"));
    let untagged = build_parsed_entity("hr/probation".to_string(), "probation_config", "x".to_string(),
        "type ProbationConfig struct {\n}\n", None).unwrap();
    assert_eq!(untagged.table_name, "hr_probation_probation_config");
    assert!(resource_rpc_path("a.go", "nothing here").is_err());
}
