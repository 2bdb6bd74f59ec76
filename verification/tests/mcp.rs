use eidolon::mcp::{
    append_stderr, effective_timeout_seconds, merge_tool_preferences, parse_args, parse_env, timeout_message,
    validate_service_for_discovery, ListedTool,
};
use eidolon::models::mcp_service::{McpDiscoveredTool, McpService, McpServiceDiscovery, McpTransportType};

#[test]
fn parse_env_rejects_invalid_lines() {
    let error = parse_env("GOOD=value\nBAD").expect_err("invalid env should fail");
    assert!(error.contains("第 2 行"), "got {error}");
}

#[test]
fn parse_env_keeps_the_last_assignment_and_skips_blank_lines() {
    let mut env = parse_env("A=1\n\n B = two words \nA=3\r\nC=").expect("valid env");
    env.sort();
    assert_eq!(
        env,
        vec![
            ("A".to_string(), "3".to_string()),
            ("B".to_string(), " two words".to_string()),
            ("C".to_string(), String::new()),
        ]
    );
    assert_eq!(parse_env(" =x").expect_err("blank key"), "环境变量第 1 行的 KEY 不能为空");
    assert_eq!(parse_env("").expect("empty"), Vec::new());
}

#[test]
fn parse_args_takes_one_argument_per_line() {
    assert_eq!(parse_args("  -y \n\n@scope/pkg\r\n/tmp "), vec!["-y", "@scope/pkg", "/tmp"]);
    assert!(parse_args("").is_empty());
}

#[test]
fn discovery_needs_a_command_or_an_address() {
    let stdio = McpService { transport_type: McpTransportType::Stdio, ..Default::default() };
    assert_eq!(validate_service_for_discovery(&stdio), Err("请先填写 STDIO 命令".to_string()));
    let http = McpService { transport_type: McpTransportType::StreamableHttp, url: "http://x".to_string(), ..Default::default() };
    assert_eq!(validate_service_for_discovery(&http), Ok(()));
}

#[test]
fn tool_preferences_survive_a_new_discovery() {
    let existing = McpServiceDiscovery {
        tools: vec![
            McpDiscoveredTool { name: "read".to_string(), enabled: false, auto_approve: true, ..Default::default() },
            McpDiscoveredTool { name: "read".to_string(), enabled: true, auto_approve: true, ..Default::default() },
        ],
        ..Default::default()
    };
    let listed = vec![
        ListedTool { name: "read".to_string(), title: "Read".to_string(), description: "d".to_string(), input_schema: "{}".to_string() },
        ListedTool { name: "write".to_string(), title: String::new(), description: String::new(), input_schema: "{}".to_string() },
    ];
    let merged = merge_tool_preferences(Some(&existing), listed.clone());
    assert!(merged[0].enabled && merged[0].auto_approve);
    assert_eq!(merged[0].title, "Read");
    assert!(merged[1].enabled && !merged[1].auto_approve);
    let fresh = merge_tool_preferences(None, listed);
    assert!(fresh.iter().all(|t| t.enabled && !t.auto_approve));
}

#[test]
fn discovery_messages() {
    assert_eq!(effective_timeout_seconds(0), 1);
    assert_eq!(effective_timeout_seconds(30), 30);
    assert_eq!(timeout_message(60), "连接超时（>60 秒）");
    assert_eq!(append_stderr("fail".to_string(), Some("  boom \n".to_string())), "fail\nSTDERR: boom");
    assert_eq!(append_stderr("fail".to_string(), Some("  ".to_string())), "fail");
    assert_eq!(append_stderr("fail".to_string(), None), "fail");
}
