use gitai::mcp::error::{ErrorSeverity, McpError};
use gitai::mcp::rmcp_compat::{ResourceBuilder, ServiceError};
use gitai::mcp::utils::{ConfigBuilder, ConfigMap, McpUtils};
use serde_json::Value;

#[test]
fn test_error_creation() {
    let err = McpError::connection_error("test-service", "连接失败");
    assert!(matches!(err, McpError::ConnectionError { .. }));
    assert_eq!(err.service_name(), Some("test-service"));
    assert!(err.is_retryable());
    assert_eq!(err.severity(), ErrorSeverity::High);
}

#[test]
fn test_service_not_found() {
    let err = McpError::service_not_found("unknown-service");
    assert!(matches!(err, McpError::ServiceNotFound(_)));
    assert_eq!(err.service_name(), Some("unknown-service"));
    assert!(!err.is_retryable());
    assert_eq!(err.severity(), ErrorSeverity::High);
}

#[test]
fn test_timeout_error() {
    let err = McpError::timeout("slow-service", 30);
    assert!(matches!(err, McpError::Timeout { .. }));
    assert_eq!(err.service_name(), Some("slow-service"));
    assert!(err.is_retryable());
    assert_eq!(err.severity(), ErrorSeverity::Medium);
}

#[test]
fn test_tool_call_error() {
    let err = McpError::tool_call_error("ai-service", "analyze", "参数错误");
    assert!(matches!(err, McpError::ToolCallError { .. }));
    assert_eq!(err.service_name(), Some("ai-service"));
    assert!(!err.is_retryable());
    assert_eq!(err.severity(), ErrorSeverity::Medium);
}

#[test]
fn test_error_display() {
    let err = McpError::connection_error("test-service", "连接失败");
    let display = err.to_string();
    assert!(display.contains("test-service"));
    assert!(display.contains("连接失败"));
}

#[test]
fn test_error_severity_display() {
    assert_eq!(ErrorSeverity::Low.to_string(), "低");
    assert_eq!(ErrorSeverity::Medium.to_string(), "中");
    assert_eq!(ErrorSeverity::High.to_string(), "高");
    assert_eq!(ErrorSeverity::Critical.to_string(), "严重");
}

#[test]
fn test_config_error() {
    let err = McpError::config_error("配置文件格式错误");
    assert!(matches!(err, McpError::ConfigError { .. }));
    assert_eq!(err.service_name(), None);
    assert!(!err.is_retryable());
    assert_eq!(err.severity(), ErrorSeverity::High);
}

#[test]
fn test_serialization_error() {
    let err = McpError::serialization_error("JSON 解析失败");
    assert!(matches!(err, McpError::SerializationError { .. }));
    assert_eq!(err.service_name(), None);
    assert!(!err.is_retryable());
    assert_eq!(err.severity(), ErrorSeverity::Medium);
}

#[test]
fn error_texts_are_exact() {
    assert_eq!(McpError::timeout("s", 30).to_string(), "服务 's' 请求超时 (30s)");
    assert_eq!(McpError::service_not_found("x").to_string(), "服务 'x' 未找到");
    assert_eq!(
        McpError::tool_call_error("a", "b", "c").to_string(),
        "服务 'a' 工具 'b' 调用失败: c"
    );
    assert_eq!(
        McpError::resource_error("a", "r", "m").to_string(),
        "服务 'a' 资源 'r' 访问失败: m"
    );
    assert_eq!(McpError::other("m").to_string(), "其他错误: m");
    assert_eq!(McpError::other("m").severity(), ErrorSeverity::Low);
    assert!(McpError::network_error("n").is_retryable());
    assert!(McpError::internal_error("n").is_retryable());
    assert!(McpError::service_unavailable("s", "r").is_retryable());
    assert!(!McpError::protocol_error("p").is_retryable());
    assert_eq!(McpError::authentication_error("s", "m").service_name(), Some("s"));
    assert_eq!(McpError::authorization_error("s", "m").to_string(), "服务 's' 授权失败: m");
}

#[test]
fn test_service_error_conversion() {
    let compat_error = ServiceError::invalid_params("测试参数".to_string());
    let (code, message) = compat_error.to_rpc_error();
    assert_eq!(code, -32602);
    assert_eq!(message, "测试参数");
    let (code, message) = ServiceError::method_not_found("m".to_string()).to_rpc_error();
    assert_eq!(code, -32601);
    assert_eq!(message, "方法未找到: m");
    assert!(matches!(ServiceError::from_rpc_error(-32700, "x".to_string()), ServiceError::ParseError(_)));
    assert!(matches!(ServiceError::from_rpc_error(1, "x".to_string()), ServiceError::Custom(_)));
}

#[test]
fn service_error_texts() {
    assert_eq!(ServiceError::invalid_params("a".to_string()).to_string(), "参数无效: a");
    assert_eq!(ServiceError::internal_error("a".to_string()).to_string(), "内部错误: a");
    assert_eq!(ServiceError::parse_error("a".to_string()).to_string(), "解析错误: a");
    assert_eq!(ServiceError::Custom("a".to_string()).to_string(), "自定义错误: a");
}

#[test]
fn resource_builder_always_fails() {
    let r = ResourceBuilder::new("u".to_string(), "n".to_string())
        .description("d".to_string())
        .mime_type("text/plain".to_string())
        .build();
    assert!(matches!(r, Err(ServiceError::Custom(_))));
}

#[test]
fn test_format_error_message() {
    let error = ServiceError::InvalidParams("bad".to_string());
    let formatted = McpUtils::format_error_message(&error);
    assert!(formatted.contains("MCP"));
    assert_eq!(formatted, "MCP 错误: 参数无效: bad");
}

#[test]
fn test_validate_resource_uri() {
    assert!(McpUtils::validate_resource_uri("test://resource").is_ok());
    assert!(McpUtils::validate_resource_uri("").is_err());
    assert!(McpUtils::validate_resource_uri("invalid-uri").is_err());
    assert!(matches!(
        McpUtils::validate_resource_uri(""),
        Err(ServiceError::InvalidParams(m)) if m == "资源 URI 不能为空"
    ));
    assert!(matches!(
        McpUtils::validate_resource_uri("a:/b"),
        Err(ServiceError::InvalidParams(m)) if m == "资源 URI 格式无效"
    ));
}

#[test]
fn test_generate_request_id() {
    let id1 = McpUtils::generate_request_id();
    let id2 = McpUtils::generate_request_id();
    assert!(id1.starts_with("req_"));
    assert!(id2.starts_with("req_"));
    assert_ne!(id1, id2);
}

#[test]
fn test_config_builder() {
    let config = ConfigBuilder::new()
        .set("name", Value::from("test"))
        .set("version", Value::from("1.0.0"))
        .set("enabled", Value::from(true))
        .build();

    assert_eq!(*config.get("name").unwrap(), "test");
    assert_eq!(*config.get("version").unwrap(), "1.0.0");
    assert_eq!(*config.get("enabled").unwrap(), true);
}

#[test]
fn test_merge_config() {
    let mut base = ConfigMap::new();
    base.insert("name".to_string(), Value::from("base"));
    base.insert("version".to_string(), Value::from("1.0.0"));

    let mut overlay = ConfigMap::new();
    overlay.insert("name".to_string(), Value::from("overlay"));
    overlay.insert("description".to_string(), Value::from("测试"));

    McpUtils::merge_config(&mut base, overlay);

    assert_eq!(*base.get("name").unwrap(), "overlay");
    assert_eq!(*base.get("version").unwrap(), "1.0.0");
    assert_eq!(*base.get("description").unwrap(), "测试");
}

#[test]
fn config_builder_keeps_the_last_value_of_a_name() {
    let config = ConfigBuilder::default().set("mode", 1).set("mode", 2).set("level", 3).build();
    assert_eq!(config.get("mode"), Some(&2));
    assert_eq!(config.get("level"), Some(&3));
    assert_eq!(config.get("other"), None);
}

#[test]
fn merging_nothing_changes_nothing() {
    let mut base: ConfigMap<u32> = ConfigMap::new();
    base.insert("a".to_string(), 1);
    McpUtils::merge_config(&mut base, ConfigMap::new());
    assert_eq!(base.get("a"), Some(&1));
    assert_eq!(base.get("b"), None);
}

#[test]
fn transport_failures_are_custom_errors() {
    assert!(matches!(ServiceError::transport_error(), ServiceError::Custom(ref m) if m == "传输层错误"));
}

#[test]
fn service_stats_are_listed_in_the_order_set() {
    let mut stats: ConfigMap<String> = ConfigMap::new();
    stats.insert("calls".to_string(), "12".to_string());
    stats.insert("name".to_string(), "\"scan\"".to_string());
    stats.insert("calls".to_string(), "13".to_string());
    assert_eq!(McpUtils::format_service_stats(&stats), "服务统计信息:\n  calls: 13\n  name: \"scan\"\n");
}
