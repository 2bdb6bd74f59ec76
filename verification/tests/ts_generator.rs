use eidolon::codegen::types::{ModelField, ParsedEntity};
use eidolon::codegen::ts_generator::{
    build_form_field_template, build_form_fields, build_interface_fields, build_param_omit_union, build_route_fields,
    build_scene_default_form_values, build_search_fields, output_specs, template_names, updated_api_barrel,
};

fn sample_entity() -> ParsedEntity {
    ParsedEntity {
        name: "ProbationConfig".to_string(),
        snake_name: "probation_config".to_string(),
        table_name: "hr_probation_config".to_string(),
        module_name: "hr/probation".to_string(),
        fields: vec![
            ModelField {
                name: "ID".to_string(),
                json_name: "id".to_string(),
                go_type: "string".to_string(),
                ts_type: "string".to_string(),
                label: "ID".to_string(),
                required: true,
                max_length: None,
                is_optional: false,
                is_json: false,
            },
            ModelField {
                name: "CreatedAt".to_string(),
                json_name: "createdAt".to_string(),
                go_type: "timex.DateTime".to_string(),
                ts_type: "string".to_string(),
                label: "创建时间".to_string(),
                required: true,
                max_length: None,
                is_optional: false,
                is_json: false,
            },
            ModelField {
                name: "CreatedByName".to_string(),
                json_name: "createdByName".to_string(),
                go_type: "string".to_string(),
                ts_type: "string".to_string(),
                label: "创建人".to_string(),
                required: true,
                max_length: None,
                is_optional: false,
                is_json: false,
            },
            ModelField {
                name: "Code".to_string(),
                json_name: "code".to_string(),
                go_type: "string".to_string(),
                ts_type: "string".to_string(),
                label: "配置编码".to_string(),
                required: true,
                max_length: Some(64),
                is_optional: false,
                is_json: false,
            },
            ModelField {
                name: "Name".to_string(),
                json_name: "name".to_string(),
                go_type: "string".to_string(),
                ts_type: "string".to_string(),
                label: "配置名称".to_string(),
                required: true,
                max_length: Some(128),
                is_optional: false,
                is_json: false,
            },
            ModelField {
                name: "StaffScope".to_string(),
                json_name: "staffScope".to_string(),
                go_type: "map[string]any".to_string(),
                ts_type: "Record<string, any>".to_string(),
                label: "人员范围配置".to_string(),
                required: true,
                max_length: None,
                is_optional: false,
                is_json: true,
            },
            ModelField {
                name: "IsActive".to_string(),
                json_name: "isActive".to_string(),
                go_type: "bool".to_string(),
                ts_type: "boolean".to_string(),
                label: "是否启用".to_string(),
                required: false,
                max_length: None,
                is_optional: false,
                is_json: false,
            },
        ],
        search_fields: vec![ModelField {
            name: "Keyword".to_string(),
            json_name: "keyword".to_string(),
            go_type: "string".to_string(),
            ts_type: "string".to_string(),
            label: "关键词".to_string(),
            required: false,
            max_length: None,
            is_optional: false,
            is_json: false,
        }],
        param_fields: vec![
            ModelField {
                name: "ID".to_string(),
                json_name: "id".to_string(),
                go_type: "string".to_string(),
                ts_type: "string".to_string(),
                label: "ID".to_string(),
                required: true,
                max_length: None,
                is_optional: false,
                is_json: false,
            },
            ModelField {
                name: "Code".to_string(),
                json_name: "code".to_string(),
                go_type: "string".to_string(),
                ts_type: "string".to_string(),
                label: "配置编码".to_string(),
                required: true,
                max_length: Some(64),
                is_optional: false,
                is_json: false,
            },
            ModelField {
                name: "Name".to_string(),
                json_name: "name".to_string(),
                go_type: "string".to_string(),
                ts_type: "string".to_string(),
                label: "配置名称".to_string(),
                required: true,
                max_length: Some(128),
                is_optional: false,
                is_json: false,
            },
            ModelField {
                name: "StaffScope".to_string(),
                json_name: "staffScope".to_string(),
                go_type: "map[string]any".to_string(),
                ts_type: "Record<string, any>".to_string(),
                label: "人员范围配置".to_string(),
                required: true,
                max_length: None,
                is_optional: false,
                is_json: true,
            },
            ModelField {
                name: "IsActive".to_string(),
                json_name: "isActive".to_string(),
                go_type: "bool".to_string(),
                ts_type: "boolean".to_string(),
                label: "是否启用".to_string(),
                required: false,
                max_length: None,
                is_optional: false,
                is_json: false,
            },
        ],
        rpc_path: "hr/probation/probation_config".to_string(),
    }
}


#[test]
fn route_fields_put_id_first_then_fields_then_creator_columns() {
    let entity = sample_entity();
    let routes = build_route_fields(&entity);
    let names = routes.iter().map(|r| r.json_name.as_str()).collect::<Vec<_>>();
    assert_eq!(names, vec!["id", "code", "name", "staffScope", "isActive", "createdByName", "createdAt"]);
    assert_eq!(routes[0].label, "ID");
    assert_eq!(routes[0].width, 120);
    let name = &routes[2];
    assert_eq!(name.render_kind, "text");
    assert_eq!(name.width, 240);
    let scope = &routes[3];
    assert_eq!(scope.render_kind, "json");
    let active = &routes[4];
    assert_eq!(active.render_kind, "bool");
    assert_eq!(active.width, 100);
    assert_eq!(active.align.as_deref(), Some("center"));
    assert_eq!(active.true_label, "启用");
    assert_eq!(routes[6].width, 180);
    assert!(routes[6].should_cell_update);
}

#[test]
fn form_fields_choose_components_and_validators() {
    let entity = sample_entity();
    let forms = build_form_fields(&entity);
    assert_eq!(forms.len(), 5);
    assert_eq!(forms[0].validator_expr.as_deref(), Some("z.string(\"必须\").regex(/^[a-z0-9]+$/i, \"只能包含字母和数字\")"));
    assert_eq!(forms[1].validator_expr.as_deref(), Some("z.string(\"必须\").max(64, \"最多64个字符\")"));
    assert_eq!(forms[1].component_kind, "text");
    assert_eq!(forms[2].component_kind, "text");
    assert_eq!(forms[3].component_kind, "textarea");
    assert_eq!(forms[3].span, 24);
    assert!(forms[3].validator_expr.is_none());
    assert_eq!(forms[4].component_kind, "bool");
    assert_eq!(forms[4].validator_mode.as_deref(), Some("onChange"));
    assert_eq!(forms[4].validator_expr.as_deref(), Some("z.boolean().nullish()"));
    assert_eq!(forms[4].false_label, "禁用");
    let long = build_form_field_template(&ModelField { max_length: Some(200), ..entity.param_fields[2].clone() });
    assert_eq!(long.component_kind, "textarea");
}

#[test]
fn interface_search_and_defaults_follow_the_entity() {
    let entity = sample_entity();
    let interface = build_interface_fields(&entity);
    assert_eq!(interface.iter().map(|f| f.json_name.as_str()).collect::<Vec<_>>(), vec!["code", "name", "staffScope", "isActive"]);
    assert!(interface[3].is_optional);
    assert!(!interface[0].is_optional);
    let search = build_search_fields(&entity);
    assert_eq!(search.len(), 1);
    assert_eq!(search[0].placeholder, "关键词");
    assert_eq!(
        build_scene_default_form_values(&entity.param_fields).as_deref(),
        Some("{\n    staffScope: {},\n    isActive: true\n  }")
    );
    assert_eq!(
        build_param_omit_union(&entity),
        "\"id\" | \"createdAt\" | \"updatedAt\" | \"createdBy\" | \"updatedBy\" | \"createdByName\" | \"updatedByName\""
    );
}

#[test]
fn output_files_and_names_use_the_kebab_entity_name() {
    let entity = sample_entity();
    let specs = output_specs(&entity);
    assert_eq!(specs[0].0, "apis/hr/probation/probation-config.ts");
    assert_eq!(specs[4].0, "pages/_layout/hr/probation/probation-config/route.tsx");
    assert_eq!(specs[4].1, "route.tsx");
    let names = template_names(&entity);
    assert_eq!(names.entity_route_path, "/_layout/hr/probation/probation-config");
    assert_eq!(names.camel_entity_name, "probationConfig");
    assert_eq!(names.operation_button_group_name, "ProbationConfigOperationButtonGroup");
}

#[test]
fn api_barrel_gains_the_export_once() {
    let entity = sample_entity();
    let updated = updated_api_barrel("export * from \"./sys/app\";", &entity).unwrap();
    assert_eq!(updated, "export * from \"./sys/app\";\nexport * from \"./hr/probation/probation-config\";\n");
    assert!(updated_api_barrel(&updated, &entity).is_none());
    assert_eq!(updated_api_barrel("", &entity).unwrap(), "export * from \"./hr/probation/probation-config\";\n");
}
