use eidolon::codegen::types::{AuditType, GoCodeGenConfig, ParsedField};
use eidolon::codegen::go_generator::{
    existing_files_error, generate_model_content, generate_payload_content, generate_resource_content, go_crud_outputs,
    module_registration_snippet, validate_config,
};

fn sample_config(output_dir: String) -> GoCodeGenConfig {
    GoCodeGenConfig {
        entity_name: "User".to_string(),
        module_dir: "sys".to_string(),
        table_name: "sys_user".to_string(),
        table_alias: "u".to_string(),
        rpc_path: "smp/sys/user".to_string(),
        go_module_prefix: "smp-server/internal".to_string(),
        output_dir,
        fields: vec![
            ParsedField {
                name: "organization_id".to_string(),
                go_name: "OrganizationID".to_string(),
                json_name: "organizationId".to_string(),
                go_type: "string".to_string(),
                db_type: "VARCHAR(32)".to_string(),
                nullable: false,
                is_primary_key: false,
                default_value: None,
                comment: Some("机构主键".to_string()),
                validate: Some("required,alphanum,max=32".to_string()),
            },
            ParsedField {
                name: "name".to_string(),
                go_name: "Name".to_string(),
                json_name: "name".to_string(),
                go_type: "string".to_string(),
                db_type: "VARCHAR(64)".to_string(),
                nullable: false,
                is_primary_key: false,
                default_value: None,
                comment: Some("用户名称".to_string()),
                validate: Some("required,max=64".to_string()),
            },
            ParsedField {
                name: "email".to_string(),
                go_name: "Email".to_string(),
                json_name: "email".to_string(),
                go_type: "*string".to_string(),
                db_type: "VARCHAR(128)".to_string(),
                nullable: true,
                is_primary_key: false,
                default_value: None,
                comment: Some("邮箱地址".to_string()),
                validate: Some("omitempty,max=128".to_string()),
            },
            ParsedField {
                name: "is_active".to_string(),
                go_name: "IsActive".to_string(),
                json_name: "isActive".to_string(),
                go_type: "bool".to_string(),
                db_type: "TINYINT(1)".to_string(),
                nullable: false,
                is_primary_key: false,
                default_value: Some("1".to_string()),
                comment: Some("是否启用".to_string()),
                validate: None,
            },
            ParsedField {
                name: "sort_order".to_string(),
                go_name: "SortOrder".to_string(),
                json_name: "sortOrder".to_string(),
                go_type: "int".to_string(),
                db_type: "INT".to_string(),
                nullable: false,
                is_primary_key: false,
                default_value: None,
                comment: Some("排序".to_string()),
                validate: Some("required,min=0".to_string()),
            },
        ],
        audit_type: AuditType::FullAudited,
        enable_find_page: true,
        enable_create: true,
        enable_update: true,
        enable_delete: true,
        enable_delete_many: false,
        enable_sort: true,
        enable_audit_user_names: true,
        overwrite: false,
    }
}


#[test]
fn model_source_declares_struct_audit_and_tagged_fields() {
    let model = generate_model_content(&sample_config("out".to_string()));
    assert!(model.starts_with("package model\n\nimport (\n\t\"github.com/coldsmirk/vef-framework-go/orm\"\n)\n"));
    assert!(model.contains("type User struct"));
    assert!(model.contains("orm.FullAuditedModel"));
    assert!(model.contains("\torm.BaseModel `bun:\"table:sys_user,alias:u\"`"));
    assert!(model.contains("OrganizationID string `json:\"organizationId\" validate:\"required,alphanum,max=32\" label:\"机构主键\"`"));
    assert!(model.contains("\t// 机构主键\n"));
    assert!(model.ends_with("\n}"));
}

#[test]
fn payload_source_searches_by_name() {
    let payload = generate_payload_content(&sample_config("out".to_string()));
    assert!(payload.contains("type UserSearch struct"));
    assert!(payload.contains("Keyword string `json:\"keyword\" search:\"contains,column=name\"`"));
    assert!(payload.contains("ID string `json:\"id\"`"));
}

#[test]
fn resource_source_lists_operations_and_initializers() {
    let resource = generate_resource_content(&sample_config("out".to_string()));
    assert!(resource.contains("type UserResource struct"));
    assert!(resource.contains("crud.FindPage[model.User, payload.UserSearch]"));
    assert!(resource.contains("WithDefaultSort(&sortx.OrderSpec"));
    assert!(resource.contains("WithAuditUserNames(model.UserModel)"));
    assert!(resource.contains("Resource: api.NewRPCResource(\"smp/sys/user\")"));
    assert!(resource.contains("\t\"smp-server/internal/sys/model\"\n"));
    assert!(resource.contains("\t\tCreate: crud.NewCreate[model.User, payload.UserParams]()().\n\t\t\tEnableAudit(),"));
    assert!(!resource.contains("DeleteMany"));
}

#[test]
fn outputs_and_refusals() {
    let outputs = go_crud_outputs(&sample_config("out".to_string())).unwrap();
    assert_eq!(outputs.iter().map(|o| o.0.as_str()).collect::<Vec<_>>(), vec!["model/user.go", "payload/user.go", "resource/user.go"]);
    assert_eq!(module_registration_snippet("User"), "vef.ProvideAPIResource(resource.NewUserResource),");
    let mut config = sample_config("out".to_string());
    config.enable_find_page = false;
    config.enable_create = false;
    config.enable_update = false;
    config.enable_delete = false;
    assert_eq!(validate_config(&config).unwrap_err(), "至少需要启用一个 CRUD 操作");
    config.table_alias = " ".to_string();
    assert_eq!(go_crud_outputs(&config).unwrap_err(), "表别名不能为空");
    assert_eq!(
        existing_files_error(false, &vec!["model/user.go".to_string()]).as_deref(),
        Some("以下文件已存在，请开启覆盖后重试:\nmodel/user.go")
    );
    assert!(existing_files_error(true, &vec!["model/user.go".to_string()]).is_none());
}
