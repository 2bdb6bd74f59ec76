use eidolon::codegen::sql_parser::{extract_comment, parse_sql_ddl};

    #[test]
    fn test_parse_sql_ddl_extracts_fields_comments_and_filters_audit_columns() {
        let sql = r#"
CREATE TABLE sys_user (
    id VARCHAR(32) PRIMARY KEY COMMENT '用户主键',
    organization_id VARCHAR(32) NOT NULL COMMENT '机构主键',
    name VARCHAR(64) NOT NULL COMMENT '用户名称',
    email VARCHAR(128) COMMENT '邮箱地址',
    is_active TINYINT(1) DEFAULT 1 COMMENT '是否启用',
    balance DECIMAL(10,2) COMMENT '账户余额',
    meta JSON COMMENT '元数据',
    created_at TIMESTAMP DEFAULT CURRENT_TIMESTAMP COMMENT '创建时间',
    updated_at TIMESTAMP DEFAULT CURRENT_TIMESTAMP COMMENT '更新时间'
) COMMENT='用户表';
"#;

        let table = parse_sql_ddl(sql).expect("sql should parse");

        assert_eq!(table.table_name, "sys_user");
        assert_eq!(table.entity_name, "User");
        assert_eq!(table.entity_label.as_deref(), Some("用户表"));
        assert_eq!(table.fields.len(), 6);

        let organization_id = table
            .fields
            .iter()
            .find(|field| field.name == "organization_id")
            .expect("organization_id should exist");
        assert_eq!(organization_id.go_name, "OrganizationID");
        assert_eq!(organization_id.json_name, "organizationId");
        assert_eq!(organization_id.go_type, "string");
        assert_eq!(
            organization_id.validate.as_deref(),
            Some("required,alphanum,max=32")
        );

        let email = table
            .fields
            .iter()
            .find(|field| field.name == "email")
            .expect("email should exist");
        assert_eq!(email.go_type, "*string");
        assert_eq!(email.comment.as_deref(), Some("邮箱地址"));
        assert_eq!(email.validate.as_deref(), Some("omitempty,max=128"));

        let is_active = table
            .fields
            .iter()
            .find(|field| field.name == "is_active")
            .expect("is_active should exist");
        assert_eq!(is_active.go_type, "bool");

        let meta = table
            .fields
            .iter()
            .find(|field| field.name == "meta")
            .expect("meta should exist");
        assert_eq!(meta.go_type, "map[string]any");
        assert!(meta.validate.is_none());

        let balance = table
            .fields
            .iter()
            .find(|field| field.name == "balance")
            .expect("balance should exist");
        assert_eq!(balance.go_type, "*float64");

        assert!(!table.fields.iter().any(|field| field.name == "id"));
        assert!(!table.fields.iter().any(|field| field.name == "created_at"));
        assert!(!table.fields.iter().any(|field| field.name == "updated_at"));
    }

    #[test]
    fn test_parse_sql_ddl_supports_nested_module_style_entities() {
        let sql = r#"
CREATE TABLE hr_probation_config (
    sort_order INT NOT NULL COMMENT '排序',
    staff_limit BIGINT COMMENT '人数上限',
    started_at DATETIME COMMENT '生效时间'
);
"#;

        let table = parse_sql_ddl(sql).expect("sql should parse");

        assert_eq!(table.entity_name, "ProbationConfig");
        assert_eq!(table.fields.len(), 3);

        let sort_order = table
            .fields
            .iter()
            .find(|field| field.name == "sort_order")
            .expect("sort_order should exist");
        assert_eq!(sort_order.go_type, "int");
        assert_eq!(sort_order.validate.as_deref(), Some("required,min=0"));

        let staff_limit = table
            .fields
            .iter()
            .find(|field| field.name == "staff_limit")
            .expect("staff_limit should exist");
        assert_eq!(staff_limit.go_type, "*int64");

        let started_at = table
            .fields
            .iter()
            .find(|field| field.name == "started_at")
            .expect("started_at should exist");
        assert_eq!(started_at.go_type, "*time.Time");
    }

    #[test]
    fn test_parse_sql_ddl_with_comment_on_statements() {
        // Test with separate COMMENT ON statements
        // Note: created_at will be filtered out as it's in FILTERED_AUDIT_FIELDS
        let sql = r#"
CREATE TABLE hr_contract_template_version (
    id VARCHAR(32) PRIMARY KEY,
    title VARCHAR(128) NOT NULL,
    content TEXT,
    created_at TIMESTAMP
);

COMMENT ON TABLE hr_contract_template_version IS '合同模板版本';
COMMENT ON COLUMN hr_contract_template_version.title IS '模板标题';
COMMENT ON COLUMN hr_contract_template_version.content IS '模板内容';
COMMENT ON COLUMN hr_contract_template_version.created_at IS '创建时间';
"#;

        let table = parse_sql_ddl(sql).expect("sql should parse");

        assert_eq!(table.table_name, "hr_contract_template_version");
        assert_eq!(table.entity_name, "ContractTemplateVersion");
        assert_eq!(table.entity_label.as_deref(), Some("合同模板版本"));
        // created_at is filtered out as it's in FILTERED_AUDIT_FIELDS
        assert_eq!(table.fields.len(), 2);

        let title = table
            .fields
            .iter()
            .find(|field| field.name == "title")
            .expect("title should exist");
        assert_eq!(title.comment.as_deref(), Some("模板标题"));

        let content = table
            .fields
            .iter()
            .find(|field| field.name == "content")
            .expect("content should exist");
        assert_eq!(content.comment.as_deref(), Some("模板内容"));
    }

    #[test]
    fn test_parse_sql_ddl_with_mixed_inline_and_comment_on() {
        // Test with both inline comments and COMMENT ON statements
        // COMMENT ON should only update if inline comment is None
        let sql = r#"
CREATE TABLE hr_contract (
    id VARCHAR(32) PRIMARY KEY,
    title VARCHAR(128) NOT NULL COMMENT '合同标题',
    status INT COMMENT '合同状态'
);

COMMENT ON COLUMN hr_contract.status IS '合同状态(1=草稿,2=生效,3=终止)';
"#;

        let table = parse_sql_ddl(sql).expect("sql should parse");

        assert_eq!(table.table_name, "hr_contract");
        assert_eq!(table.entity_name, "Contract");
        assert_eq!(table.fields.len(), 2);

        let title = table
            .fields
            .iter()
            .find(|field| field.name == "title")
            .expect("title should exist");
        // Should use inline comment (takes precedence - COMMENT ON doesn't override)
        assert_eq!(title.comment.as_deref(), Some("合同标题"));

        let status = table
            .fields
            .iter()
            .find(|field| field.name == "status")
            .expect("status should exist");
        // Should use inline comment (takes precedence - COMMENT ON doesn't override)
        assert_eq!(status.comment.as_deref(), Some("合同状态"));
    }

    #[test]
    fn test_parse_sql_ddl_comment_on_with_equals() {
        // Test COMMENT ON with = instead of IS
        let sql = r#"
CREATE TABLE test_table (
    id VARCHAR(32) PRIMARY KEY,
    name VARCHAR(64)
);

COMMENT ON TABLE test_table = '测试表';
COMMENT ON COLUMN test_table.name = '名称';
"#;

        let table = parse_sql_ddl(sql).expect("sql should parse");

        assert_eq!(table.entity_label.as_deref(), Some("测试表"));

        let name = table
            .fields
            .iter()
            .find(|field| field.name == "name")
            .expect("name should exist");
        assert_eq!(name.comment.as_deref(), Some("名称"));
    }

    #[test]
    fn test_parse_sql_ddl_comment_on_only() {
        // Test COMMENT ON statements only (no inline comments)
        let sql = r#"
CREATE TABLE demo (
    id VARCHAR(32) PRIMARY KEY,
    title VARCHAR(64)
);

COMMENT ON TABLE demo IS '演示表';
COMMENT ON COLUMN demo.title IS '标题';
"#;

        let table = parse_sql_ddl(sql).expect("sql should parse");

        assert_eq!(table.entity_label.as_deref(), Some("演示表"));

        let title = table
            .fields
            .iter()
            .find(|field| field.name == "title")
            .expect("title should exist");
        assert_eq!(title.comment.as_deref(), Some("标题"));
    }

#[test]
fn comment_starts_at_a_regex_word_boundary() {
    let chars = |s: &str| s.chars().collect::<Vec<char>>();
    let found = |s: &str| extract_comment(&chars(s)).map(|c| c.into_iter().collect::<String>());
    assert_eq!(found("int comment 'id'"), Some("id".to_string()));
    assert_eq!(found("int xcomment 'id'"), None);
    assert_eq!(found("int x\u{00b2}comment 'id'"), Some("id".to_string()));
    assert_eq!(found("int e\u{0301}comment 'id'"), None);
    assert_eq!(found("int _comment 'id'"), None);
}
