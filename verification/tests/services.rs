use gitai::mcp::manager::{route_tool_call, ServiceKind, ServiceTool};
use gitai::mcp::registry::RegistryError;
use gitai::logging::{LogFormat, LogLevel, LoggingConfig, LoggingEnvironment, OperationTimer};
use gitai::mcp::client::{McpClient, McpClientConfig};
use gitai::mcp::rmcp_compat::ServiceError;
use gitai::mcp::services::ai_analysis::AiAnalysisService;
use gitai::mcp::services::git::{
    files_with_change, git_status_from_output, FileChange, GitCommandRoute, GitProbe, GitService,
    GitServiceHandler, GitTool,
};
use gitai::mcp::services::rule_management::RuleManagementService;
use gitai::mcp::services::treesitter::{
    DetectLanguageRequest, TreeSitterHandler, TreeSitterService, TreeSitterTool,
};
use gitai::mcp::types::{ResourceResponse, ServiceStatus, ToolCallResponse};
use gitai::mcp::{
    create_mcp_service, init_gitai_mcp_manager, GitAiMcpConfig, GitAiMcpManager, McpService,
};

#[test]
fn test_logging_config_creation() {
    let dev_config = LoggingConfig::development();
    assert_eq!(dev_config.environment, LoggingEnvironment::Development);
    assert_eq!(dev_config.level, LogLevel::Debug);
    assert_eq!(dev_config.format, LogFormat::Pretty);

    let prod_config = LoggingConfig::production();
    assert_eq!(prod_config.environment, LoggingEnvironment::Production);
    assert_eq!(prod_config.level, LogLevel::Info);
    assert_eq!(prod_config.format, LogFormat::Json);

    let test_config = LoggingConfig::testing();
    assert_eq!(test_config.environment, LoggingEnvironment::Testing);
    assert_eq!(test_config.level, LogLevel::Error);
    assert_eq!(test_config.format, LogFormat::Compact);
    assert!(!prod_config.uses_ansi());
    assert!(dev_config.uses_ansi());
}

#[test]
fn test_operation_timer() {
    let timer = OperationTimer::new("test_operation")
        .with_metadata("param1", "value1")
        .with_metadata("param2", "value2");

    assert_eq!(timer.operation(), "test_operation");
    assert_eq!(timer.metadata_value("param1"), Some("value1"));
    assert_eq!(timer.metadata_value("param2"), Some("value2"));

    let mut spins: u32 = 0;
    while timer.elapsed().as_nanos() == 0 && spins < 1_000_000 {
        spins += 1;
    }
    assert!(timer.elapsed().as_nanos() > 0);

    let report = timer.finish();
    assert_eq!(report.operation, "test_operation");
    assert_eq!(report.metadata.len(), 2);
}

#[test]
fn timer_metadata_replaces_earlier_value() {
    let timer = OperationTimer::new("op").with_metadata("k", "1").with_metadata("k", "2");
    assert_eq!(timer.metadata_value("k"), Some("2"));
    assert_eq!(timer.metadata_value("missing"), None);
    assert_eq!(timer.finish().metadata.len(), 1);
}

#[test]
fn test_operation_timer_drop() {
    {
        let _timer = OperationTimer::new("test_drop_operation");
    }
}

#[test]
fn test_client_creation() {
    let config = McpClientConfig::default();
    assert_eq!(config.endpoint, "stdio");
    assert_eq!(config.timeout, 30);
    assert_eq!(config.max_retries, 3);
    let client = McpClient::new("test-service".to_string(), config);
    assert!(client.is_ok());
    let client = client.unwrap();
    assert_eq!(client.service_name(), "test-service");
    assert!(!client.is_connected());
}

#[test]
fn test_client_connection() {
    let mut client = McpClient::new("test-service".to_string(), McpClientConfig::default()).unwrap();
    assert!(!client.is_connected());
    client.connect().unwrap();
    assert!(client.is_connected());
    client.disconnect().unwrap();
    assert!(!client.is_connected());
}

#[test]
fn test_client_health_check() {
    let mut client = McpClient::new("test-service".to_string(), McpClientConfig::default()).unwrap();
    assert!(!client.health_check().unwrap());
    client.connect().unwrap();
    assert!(client.health_check().unwrap());
}

#[test]
fn test_client_tool_call_when_disconnected() {
    let client = McpClient::new("test-service".to_string(), McpClientConfig::default()).unwrap();
    let result = client.call_tool("test_tool", serde_json::Value::Object(serde_json::Map::new()));
    assert!(result.is_err());
    assert!(client.require_connection().is_err());
    assert!(matches!(client.read_resource("x://y"), Err(ServiceError::InternalError(m)) if m == "客户端未连接"));
    assert!(client.list_tools().is_err());
}

#[test]
fn test_client_tool_call_when_connected() {
    let mut client = McpClient::new("test-service".to_string(), McpClientConfig::default()).unwrap();
    client.connect().unwrap();
    let result = client.call_tool("test_tool", serde_json::Value::Object(serde_json::Map::new()));
    assert!(result.is_ok());
    assert!(client.require_connection().is_ok());
    assert_eq!(client.read_resource("x://y").unwrap(), "资源内容: x://y");
    assert!(client.list_tools().unwrap().is_empty());
    assert!(client.list_resources().unwrap().is_empty());
}

#[test]
fn test_default_config() {
    let config = GitAiMcpConfig::default();
    assert_eq!(config.enabled_services.len(), 5);
    assert!(config.enabled_services.contains(&"gitai-treesitter-service".to_string()));
    assert!(config.transport_config.stdio_config.enabled);
    assert!(config.discovery_config.enabled);
    assert_eq!(config.transport_config.stdio_config.buffer_size, 8192);
    assert_eq!(config.discovery_config.registration_timeout, 30);
}

#[test]
fn test_git_service_creation() {
    let service = GitService::new(None);
    assert_eq!(service.name(), "gitai-git-service");
    assert_eq!(service.version(), "1.0.0");
    assert!(!service.is_running());
}

#[test]
fn test_git_service_start_stop() {
    let mut service = GitService::new(None);
    assert!(service.start_with(GitProbe::Available).is_ok());
    assert!(service.is_running());
    assert!(service.stop_sync().is_ok());
    assert!(!service.is_running());
    assert!(matches!(
        service.start_with(GitProbe::NotRun("no git".to_string())),
        Err(ServiceError::InternalError(m)) if m == "启动 Git 服务失败: no git"
    ));
    assert!(!service.is_running());
}

#[test]
fn test_git_status() {
    let status = git_status_from_output(true, "main\n", true, "?? test.txt\n", "").unwrap();
    assert!(status.has_changes);
    assert_eq!(status.untracked_files.len(), 1);
    assert_eq!(status.untracked_files[0], "test.txt");
    assert_eq!(status.current_branch.as_deref(), Some("main"));
}

#[test]
fn git_status_classifies_porcelain_lines() {
    let out = " M a.rs\nM  b.rs\nMM c.rs\nA  d.rs\nAM e.rs\n D f.rs\nD  g.rs\n?? h.rs\nR  x -> y\nab\n";
    assert_eq!(files_with_change(out, FileChange::Modified), vec!["a.rs", "b.rs", "c.rs"]);
    assert_eq!(files_with_change(out, FileChange::Added), vec!["d.rs", "e.rs"]);
    assert_eq!(files_with_change(out, FileChange::Deleted), vec!["f.rs", "g.rs"]);
    assert_eq!(files_with_change(out, FileChange::Untracked), vec!["h.rs"]);
    let clean = git_status_from_output(false, "", true, "", "").unwrap();
    assert!(!clean.has_changes);
    assert!(clean.current_branch.is_none());
    let failed = git_status_from_output(true, "main", false, "", "boom");
    assert!(matches!(failed, Err(ServiceError::InternalError(m)) if m == "获取 git 状态失败: boom"));
}

#[test]
fn git_routes_and_tools() {
    assert_eq!(GitService::route_command("commit"), GitCommandRoute::GitAiCommit);
    assert_eq!(GitService::route_command("review"), GitCommandRoute::GitAiReview);
    assert_eq!(GitService::route_command("log"), GitCommandRoute::Git);
    assert!(matches!(GitService::tool_for_name("git_status"), Ok(GitTool::Status)));
    assert!(matches!(
        GitService::tool_for_name("x"),
        Err(ServiceError::MethodNotFound(m)) if m == "未知工具: x"
    ));
    let handler = GitServiceHandler::new(Some("/repo".to_string()));
    assert_eq!(handler.service().command_dir(None), Some("/repo"));
    assert_eq!(handler.service().command_dir(Some("/w")), Some("/w"));
}

#[test]
fn test_service_creation() {
    let service = TreeSitterService::new();
    assert_eq!(service.name(), "gitai-treesitter-service");
    assert_eq!(service.version(), "1.0.0");
    assert!(!service.is_running());
}

#[test]
fn test_service_lifecycle() {
    let mut service = TreeSitterService::new();
    assert!(!service.health_check_sync().unwrap());
    service.start_sync().unwrap();
    assert!(service.health_check_sync().unwrap());
    service.stop_sync().unwrap();
    assert!(!service.health_check_sync().unwrap());
}

#[test]
fn placeholder_services_start_and_stop() {
    let mut a = AiAnalysisService::new();
    assert_eq!(a.name(), "gitai-ai-analysis-service");
    a.start_sync().unwrap();
    assert!(a.is_running());
    assert_eq!(a.get_handler_info(), "AiAnalysisHandler for service: gitai-ai-analysis-service");
    let mut r = RuleManagementService::new();
    assert_eq!(r.name(), "gitai-rule-management-service");
    r.stop_sync().unwrap();
    assert!(!r.health_check_sync().unwrap());
}

#[test]
fn test_language_detection_by_extension() {
    let handler = TreeSitterHandler::new(TreeSitterService::new());
    assert_eq!(handler.detect_language_by_extension("test.rs"), Some("rust".to_string()));
    assert_eq!(handler.detect_language_by_extension("test.py"), Some("python".to_string()));
    assert_eq!(handler.detect_language_by_extension("test.js"), Some("javascript".to_string()));
    assert_eq!(handler.detect_language_by_extension("test.unknown"), None);
    assert_eq!(handler.detect_language_by_extension("src/a.cc"), Some("cpp".to_string()));
    assert_eq!(handler.detect_language_by_extension(".rs"), None);
    assert_eq!(handler.detect_language_by_extension("dir/x.yml/"), Some("yaml".to_string()));
    assert_eq!(handler.detect_language_by_extension("Makefile"), None);
}

#[test]
fn test_language_detection_by_content() {
    let handler = TreeSitterHandler::new(TreeSitterService::new());
    assert_eq!(handler.detect_language_by_content("fn main() {}"), Some("rust".to_string()));
    assert_eq!(handler.detect_language_by_content("def hello():"), Some("python".to_string()));
    assert_eq!(handler.detect_language_by_content("function test() {}"), Some("javascript".to_string()));
    assert_eq!(handler.detect_language_by_content("hello world"), None);
}

#[test]
fn test_language_features() {
    let handler = TreeSitterHandler::new(TreeSitterService::new());
    let rust_features = handler.get_language_features("rust");
    assert!(rust_features.contains(&"syntax_highlighting".to_string()));
    assert!(rust_features.contains(&"structure_analysis".to_string()));
    assert!(rust_features.contains(&"complexity_analysis".to_string()));
    assert!(rust_features.contains(&"dependency_analysis".to_string()));
    let python_features = handler.get_language_features("python");
    assert!(python_features.contains(&"syntax_highlighting".to_string()));
    assert!(!python_features.contains(&"dependency_analysis".to_string()));
}

#[test]
fn treesitter_handler_requests() {
    let handler = TreeSitterHandler::new(TreeSitterService::new());
    let by_path = handler
        .detect_language(&DetectLanguageRequest { file_path: Some("a.ts".to_string()), content: None })
        .unwrap();
    assert_eq!(by_path.language.as_deref(), Some("typescript"));
    assert_eq!(by_path.features.len(), 4);
    assert!(handler
        .detect_language(&DetectLanguageRequest { file_path: None, content: None })
        .is_err());
    assert_eq!(handler.get_supported_languages().unwrap().len(), 11);
    assert!(matches!(TreeSitterHandler::tool_for_name("parse_diff"), Ok(TreeSitterTool::ParseDiff)));
    assert!(TreeSitterHandler::tool_for_name("nope").is_err());
    assert_eq!(
        handler.read_resource("treesitter://queries/rust/highlights.scm").unwrap(),
        "; 语言 rust 的高亮查询规则\n; 这里是查询内容..."
    );
    assert!(handler.read_resource("treesitter://queries/rust/other.scm").is_err());
    assert!(handler.read_resource("file://x").is_err());
}

#[test]
fn test_service_status_display() {
    assert_eq!(ServiceStatus::Running.to_string(), "运行中");
    assert_eq!(ServiceStatus::Stopped.to_string(), "已停止");
    assert_eq!(ServiceStatus::Error.to_string(), "错误");
}

#[test]
fn test_service_status_default() {
    let status = ServiceStatus::default();
    assert_eq!(status, ServiceStatus::Unknown);
}

#[test]
fn test_tool_call_response_success() {
    let response = ToolCallResponse::success("{\"result\":\"ok\"}".to_string());
    assert!(response.success);
    assert!(response.result.is_some());
    assert!(response.error.is_none());
}

#[test]
fn test_tool_call_response_error() {
    let response = ToolCallResponse::error("测试错误".to_string());
    assert!(!response.success);
    assert!(response.result.is_none());
    assert!(response.error.is_some());
}

#[test]
fn test_resource_response_success() {
    let response = ResourceResponse::success("{\"data\":\"test\"}".to_string());
    assert!(response.success);
    assert!(response.content.is_some());
    assert!(response.error.is_none());
}

#[test]
fn test_resource_response_error() {
    let response = ResourceResponse::error("资源不存在".to_string());
    assert!(!response.success);
    assert!(response.content.is_none());
    assert!(response.error.is_some());
}

struct BrokenService;

impl McpService for BrokenService {
    fn name(&self) -> &str {
        "gitai-scanner-service"
    }
    fn version(&self) -> &str {
        "0.0.1"
    }
    fn description(&self) -> &str {
        "a service that cannot start"
    }
    fn start_sync(&mut self) -> Result<(), ServiceError> {
        Err(ServiceError::internal_error("cannot start".to_string()))
    }
    fn stop_sync(&mut self) -> Result<(), ServiceError> {
        Ok(())
    }
    fn health_check_sync(&self) -> Result<bool, ServiceError> {
        Err(ServiceError::internal_error("no answer".to_string()))
    }
    fn get_handler_info(&self) -> String {
        "broken".to_string()
    }
}

#[test]
fn test_manager_creation() {
    let config = GitAiMcpConfig::default();
    let manager: GitAiMcpManager<TreeSitterService> = GitAiMcpManager::new(config);
    assert_eq!(manager.list_active_services().len(), 0);
}

#[test]
fn test_init_manager() {
    let result = init_gitai_mcp_manager::<TreeSitterService>(None);
    assert!(result.is_ok());
}

#[test]
fn manager_runs_an_enabled_service() {
    let mut manager = GitAiMcpManager::new(GitAiMcpConfig::default());
    assert!(manager.register_service(TreeSitterService::new()).is_ok());
    assert_eq!(manager.list_active_services(), vec!["gitai-treesitter-service".to_string()]);
    let service = manager.get_service("gitai-treesitter-service").unwrap();
    assert!(service.is_running());
    assert!(manager.get_service("gitai-git-service").is_none());
    assert_eq!(manager.health_check_all(), vec![("gitai-treesitter-service".to_string(), true)]);
}

#[test]
fn manager_passes_over_a_disabled_service() {
    let mut config = GitAiMcpConfig::default();
    config.enabled_services = vec!["gitai-git-service".to_string()];
    let mut manager = GitAiMcpManager::new(config);
    assert!(manager.register_service(TreeSitterService::new()).is_ok());
    assert!(manager.list_active_services().is_empty());
    assert!(manager.get_service("gitai-treesitter-service").is_none());
}

#[test]
fn manager_register_then_unregister_leaves_nothing_running() {
    let mut manager = GitAiMcpManager::new(GitAiMcpConfig::default());
    assert!(manager.register_service(TreeSitterService::new()).is_ok());
    assert!(manager.unregister_service("gitai-treesitter-service").is_ok());
    assert!(manager.list_active_services().is_empty());
    assert!(manager.unregister_service("gitai-treesitter-service").is_ok());
    assert!(manager.health_check_all().is_empty());
}

#[test]
fn manager_registering_twice_keeps_one_entry() {
    let mut manager = GitAiMcpManager::new(GitAiMcpConfig::default());
    assert!(manager.register_named("gitai-treesitter-service".to_string(), TreeSitterService::new()).is_ok());
    assert!(manager.register_named("gitai-treesitter-service".to_string(), TreeSitterService::new()).is_ok());
    assert_eq!(manager.list_active_services().len(), 1);
    assert!(manager.stop_all_services().is_ok());
    assert!(!manager.get_service("gitai-treesitter-service").unwrap().is_running());
    assert!(manager.start_all_services().is_ok());
    assert!(manager.get_service("gitai-treesitter-service").unwrap().is_running());
}

#[test]
fn manager_keeps_out_a_service_that_fails_to_start() {
    let mut manager = GitAiMcpManager::new(GitAiMcpConfig::default());
    let r = manager.register_service(BrokenService);
    assert!(matches!(r, Err(ServiceError::InternalError(ref m)) if m == "cannot start"));
    assert!(manager.list_active_services().is_empty());
}

#[test]
fn transport_must_be_stdio() {
    assert!(create_mcp_service("stdio").is_ok());
    let r = create_mcp_service("sse");
    assert!(matches!(r, Err(ServiceError::InvalidParams(ref m)) if m == "不支持的传输协议: sse"));
}

#[test]
fn health_check_answers() {
    let ok = gitai::mcp::types::HealthCheckResponse::healthy("running".to_string());
    assert!(ok.healthy);
    assert_eq!(ok.status, "running");
    assert!(ok.timestamp > 0);
    assert!(ok.details.get("anything").is_none());
    let bad = gitai::mcp::types::HealthCheckResponse::unhealthy("down".to_string());
    assert!(!bad.healthy);
    assert_eq!(bad.status, "down");
}

#[test]
fn test_health_check_response_healthy() {
    let response = gitai::mcp::types::HealthCheckResponse::healthy("服务正常".to_string());
    assert!(response.healthy);
    assert_eq!(response.status, "服务正常");
}

#[test]
fn test_health_check_response_unhealthy() {
    let response = gitai::mcp::types::HealthCheckResponse::unhealthy("服务异常".to_string());
    assert!(!response.healthy);
    assert_eq!(response.status, "服务异常");
}

#[test]
fn git_service_starts_through_the_trait_after_a_probe() {
    let mut unprobed = GitService::new(None);
    assert!(matches!(unprobed.start_sync(), Err(ServiceError::InternalError(ref m)) if m == "启动 Git 服务失败: 未检测 git"));
    assert!(!unprobed.is_running());
    let mut ok = GitService::new(None).with_probe(GitProbe::Available);
    assert!(ok.start_sync().is_ok());
    assert!(ok.is_running());
    let mut missing = GitService::new(None).with_probe(GitProbe::Unavailable);
    assert!(matches!(missing.start_sync(), Err(ServiceError::InternalError(ref m)) if m == "Git 命令不可用"));
    assert!(!missing.is_running());
}

#[test]
fn tool_call_reply_names_tool_service_and_arguments() {
    let mut client = McpClient::new("test-service".to_string(), McpClientConfig::default()).unwrap();
    client.connect().unwrap();
    let reply = client.call_tool("test_tool", serde_json::Value::from(7)).unwrap();
    assert_eq!(reply.tool, "test_tool");
    assert_eq!(reply.service, "test-service");
    assert_eq!(reply.args, serde_json::Value::from(7));
    assert_eq!(reply.result, "success");
    client.disconnect().unwrap();
    match client.call_tool("test_tool", serde_json::Value::Null) {
        Err(ServiceError::InternalError(m)) => assert_eq!(m, "客户端未连接"),
        _ => panic!("a call while disconnected must fail"),
    }
}

#[test]
fn renames_and_conflicts_count_as_changes() {
    let renamed = git_status_from_output(true, "main\n", true, "R  a.rs -> b.rs\n", "").unwrap();
    assert!(renamed.has_changes);
    assert!(renamed.modified_files.is_empty() && renamed.added_files.is_empty());
    let conflict = git_status_from_output(true, "main\n", true, "UU f.rs\n", "").unwrap();
    assert!(conflict.has_changes);
    assert!(!git_status_from_output(true, "main\n", true, "\n", "").unwrap().has_changes);
}

#[test]
fn detected_languages_are_all_supported() {
    let handler = TreeSitterHandler::new(TreeSitterService::new());
    let supported = handler.get_supported_languages().unwrap();
    let mut seen = supported.clone();
    seen.sort();
    seen.dedup();
    assert_eq!(seen.len(), supported.len());
    for path in ["a.rs", "b.py", "c.js", "d.ts", "e.java", "f.c", "g.cc", "h.go", "i.json", "j.yml", "k.md"] {
        let l = handler.detect_language_by_extension(path).unwrap();
        assert!(supported.contains(&l));
    }
    for code in ["fn main() {}", "def f():", "const x = 1", "type T = u8", "package x;", "func main"] {
        let l = handler.detect_language_by_content(code).unwrap();
        assert!(supported.contains(&l));
    }
}

#[test]
fn tool_calls_go_to_the_first_service_offering_the_tool() {
    let kinds = vec![ServiceKind::Review, ServiceKind::Scan, ServiceKind::Analysis];
    assert_eq!(route_tool_call(&kinds, "execute_scan").unwrap(), ServiceTool::ExecuteScan);
    assert_eq!(route_tool_call(&kinds, "query_call_chain").unwrap(), ServiceTool::QueryCallChain);
    match route_tool_call(&kinds, "execute_commit") {
        Err(RegistryError::InvalidParameters(m)) => assert_eq!(m, "Unknown tool: execute_commit"),
        _ => panic!("the commit tool is not offered"),
    }
}
