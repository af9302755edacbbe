use crate::text::{decimal_text, format_decimal};
use vstd::prelude::*;

verus! {

/// Error of an MCP service call.
pub enum McpError {
    /// Connecting to a service failed.
    ConnectionError { service: String, message: String },
    /// No service has this name.
    ServiceNotFound(String),
    /// The service cannot serve now.
    ServiceUnavailable { service: String, reason: String },
    /// The request ran out of time, `duration` in seconds.
    Timeout { service: String, duration: u64 },
    /// Encoding or decoding failed.
    SerializationError { message: String },
    /// A tool call failed.
    ToolCallError { service: String, tool: String, message: String },
    /// Reading a resource failed.
    ResourceError { service: String, resource: String, message: String },
    /// The caller could not be authenticated.
    AuthenticationError { service: String, message: String },
    /// The caller may not do this.
    AuthorizationError { service: String, message: String },
    /// The configuration is wrong.
    ConfigError { message: String },
    /// The network failed.
    NetworkError { message: String },
    /// The protocol was violated.
    ProtocolError { message: String },
    /// Something failed inside.
    InternalError { message: String },
    /// Anything else.
    Other { message: String },
}

/// How grave an error is.
#[derive(Debug, Clone, Copy, PartialEq, Eq, Structural)]
pub enum ErrorSeverity {
    /// Low.
    Low,
    /// Medium.
    Medium,
    /// High.
    High,
    /// Critical.
    Critical,
}

/// The text of an error, as it is displayed.
pub open spec fn mcp_error_text(e: McpError) -> Seq<char> {
    match e {
        McpError::ConnectionError { service, message } => "连接服务 '"@ + service@ + "' 失败: "@ + message@,
        McpError::ServiceNotFound(service) => "服务 '"@ + service@ + "' 未找到"@,
        McpError::ServiceUnavailable { service, reason } => "服务 '"@ + service@ + "' 不可用: "@ + reason@,
        McpError::Timeout { service, duration } => "服务 '"@ + service@ + "' 请求超时 ("@ + decimal_text(
            duration as nat,
        ) + "s)"@,
        McpError::SerializationError { message } => "序列化错误: "@ + message@,
        McpError::ToolCallError { service, tool, message } => "服务 '"@ + service@ + "' 工具 '"@ + tool@
            + "' 调用失败: "@ + message@,
        McpError::ResourceError { service, resource, message } => "服务 '"@ + service@ + "' 资源 '"@
            + resource@ + "' 访问失败: "@ + message@,
        McpError::AuthenticationError { service, message } => "服务 '"@ + service@ + "' 认证失败: "@
            + message@,
        McpError::AuthorizationError { service, message } => "服务 '"@ + service@ + "' 授权失败: "@
            + message@,
        McpError::ConfigError { message } => "配置错误: "@ + message@,
        McpError::NetworkError { message } => "网络错误: "@ + message@,
        McpError::ProtocolError { message } => "协议错误: "@ + message@,
        McpError::InternalError { message } => "内部错误: "@ + message@,
        McpError::Other { message } => "其他错误: "@ + message@,
    }
}

/// The service an error concerns, for the kinds that name one.
pub open spec fn error_service(e: McpError) -> Option<Seq<char>> {
    match e {
        McpError::ConnectionError { service, .. } => Some(service@),
        McpError::ServiceNotFound(service) => Some(service@),
        McpError::ServiceUnavailable { service, .. } => Some(service@),
        McpError::Timeout { service, .. } => Some(service@),
        McpError::ToolCallError { service, .. } => Some(service@),
        McpError::ResourceError { service, .. } => Some(service@),
        McpError::AuthenticationError { service, .. } => Some(service@),
        McpError::AuthorizationError { service, .. } => Some(service@),
        _ => None,
    }
}

/// Whether retrying may help: connection, availability, time-out, network and
/// internal errors.
pub open spec fn error_retryable(e: McpError) -> bool {
    match e {
        McpError::ConnectionError { .. } => true,
        McpError::ServiceUnavailable { .. } => true,
        McpError::Timeout { .. } => true,
        McpError::NetworkError { .. } => true,
        McpError::InternalError { .. } => true,
        _ => false,
    }
}

/// The severity of each kind of error.
pub open spec fn error_severity(e: McpError) -> ErrorSeverity {
    match e {
        McpError::ConnectionError { .. } => ErrorSeverity::High,
        McpError::ServiceNotFound(_) => ErrorSeverity::High,
        McpError::ServiceUnavailable { .. } => ErrorSeverity::Medium,
        McpError::Timeout { .. } => ErrorSeverity::Medium,
        McpError::SerializationError { .. } => ErrorSeverity::Medium,
        McpError::ToolCallError { .. } => ErrorSeverity::Medium,
        McpError::ResourceError { .. } => ErrorSeverity::Medium,
        McpError::AuthenticationError { .. } => ErrorSeverity::High,
        McpError::AuthorizationError { .. } => ErrorSeverity::High,
        McpError::ConfigError { .. } => ErrorSeverity::High,
        McpError::NetworkError { .. } => ErrorSeverity::Medium,
        McpError::ProtocolError { .. } => ErrorSeverity::High,
        McpError::InternalError { .. } => ErrorSeverity::High,
        McpError::Other { .. } => ErrorSeverity::Low,
    }
}

/// The name of a severity, as it is displayed.
pub open spec fn severity_text(s: ErrorSeverity) -> Seq<char> {
    match s {
        ErrorSeverity::Low => "低"@,
        ErrorSeverity::Medium => "中"@,
        ErrorSeverity::High => "高"@,
        ErrorSeverity::Critical => "严重"@,
    }
}

impl ErrorSeverity {
    /// The severity's name, as it is displayed.
    pub fn to_string(&self) -> (r: String)
        ensures
            r@ == severity_text(*self),
    {
        match self {
            ErrorSeverity::Low => String::from_str("低"),
            ErrorSeverity::Medium => String::from_str("中"),
            ErrorSeverity::High => String::from_str("高"),
            ErrorSeverity::Critical => String::from_str("严重"),
        }
    }
}

fn owned(s: &str) -> (r: String)
    ensures
        r@ == s@,
{
    String::from_str(s)
}

impl McpError {
    /// A connection error.
    pub fn connection_error(service: &str, message: &str) -> (r: Self)
        ensures
            r matches McpError::ConnectionError { service: s, message: m } && s@ == service@ && m@
                == message@,
    {
        McpError::ConnectionError { service: owned(service), message: owned(message) }
    }

    /// A service-not-found error.
    pub fn service_not_found(service: &str) -> (r: Self)
        ensures
            r matches McpError::ServiceNotFound(s) && s@ == service@,
    {
        McpError::ServiceNotFound(owned(service))
    }

    /// A service-unavailable error.
    pub fn service_unavailable(service: &str, reason: &str) -> (r: Self)
        ensures
            r matches McpError::ServiceUnavailable { service: s, reason: m } && s@ == service@ && m@
                == reason@,
    {
        McpError::ServiceUnavailable { service: owned(service), reason: owned(reason) }
    }

    /// A time-out error after `duration` seconds.
    pub fn timeout(service: &str, duration: u64) -> (r: Self)
        ensures
            r matches McpError::Timeout { service: s, duration: d } && s@ == service@ && d == duration,
    {
        McpError::Timeout { service: owned(service), duration }
    }

    /// A serialization error.
    pub fn serialization_error(message: &str) -> (r: Self)
        ensures
            r matches McpError::SerializationError { message: m } && m@ == message@,
    {
        McpError::SerializationError { message: owned(message) }
    }

    /// A tool-call error.
    pub fn tool_call_error(service: &str, tool: &str, message: &str) -> (r: Self)
        ensures
            r matches McpError::ToolCallError { service: s, tool: t, message: m } && s@ == service@ && t@
                == tool@ && m@ == message@,
    {
        McpError::ToolCallError { service: owned(service), tool: owned(tool), message: owned(message) }
    }

    /// A resource error.
    pub fn resource_error(service: &str, resource: &str, message: &str) -> (r: Self)
        ensures
            r matches McpError::ResourceError { service: s, resource: x, message: m } && s@ == service@
                && x@ == resource@ && m@ == message@,
    {
        McpError::ResourceError {
            service: owned(service),
            resource: owned(resource),
            message: owned(message),
        }
    }

    /// An authentication error.
    pub fn authentication_error(service: &str, message: &str) -> (r: Self)
        ensures
            r matches McpError::AuthenticationError { service: s, message: m } && s@ == service@ && m@
                == message@,
    {
        McpError::AuthenticationError { service: owned(service), message: owned(message) }
    }

    /// An authorization error.
    pub fn authorization_error(service: &str, message: &str) -> (r: Self)
        ensures
            r matches McpError::AuthorizationError { service: s, message: m } && s@ == service@ && m@
                == message@,
    {
        McpError::AuthorizationError { service: owned(service), message: owned(message) }
    }

    /// A configuration error.
    pub fn config_error(message: &str) -> (r: Self)
        ensures
            r matches McpError::ConfigError { message: m } && m@ == message@,
    {
        McpError::ConfigError { message: owned(message) }
    }

    /// A network error.
    pub fn network_error(message: &str) -> (r: Self)
        ensures
            r matches McpError::NetworkError { message: m } && m@ == message@,
    {
        McpError::NetworkError { message: owned(message) }
    }

    /// A protocol error.
    pub fn protocol_error(message: &str) -> (r: Self)
        ensures
            r matches McpError::ProtocolError { message: m } && m@ == message@,
    {
        McpError::ProtocolError { message: owned(message) }
    }

    /// An internal error.
    pub fn internal_error(message: &str) -> (r: Self)
        ensures
            r matches McpError::InternalError { message: m } && m@ == message@,
    {
        McpError::InternalError { message: owned(message) }
    }

    /// Any other error.
    pub fn other(message: &str) -> (r: Self)
        ensures
            r matches McpError::Other { message: m } && m@ == message@,
    {
        McpError::Other { message: owned(message) }
    }

    /// The service the error concerns, for the kinds that name one.
    pub fn service_name(&self) -> (r: Option<&str>)
        ensures
            match error_service(*self) {
                Some(n) => r matches Some(x) && x@ == n,
                None => r is None,
            },
    {
        match self {
            McpError::ConnectionError { service, .. } => Some(service.as_str()),
            McpError::ServiceNotFound(service) => Some(service.as_str()),
            McpError::ServiceUnavailable { service, .. } => Some(service.as_str()),
            McpError::Timeout { service, .. } => Some(service.as_str()),
            McpError::ToolCallError { service, .. } => Some(service.as_str()),
            McpError::ResourceError { service, .. } => Some(service.as_str()),
            McpError::AuthenticationError { service, .. } => Some(service.as_str()),
            McpError::AuthorizationError { service, .. } => Some(service.as_str()),
            _ => None,
        }
    }

    /// Whether retrying may help.
    pub fn is_retryable(&self) -> (r: bool)
        ensures
            r == error_retryable(*self),
    {
        match self {
            McpError::ConnectionError { .. } => true,
            McpError::ServiceUnavailable { .. } => true,
            McpError::Timeout { .. } => true,
            McpError::NetworkError { .. } => true,
            McpError::InternalError { .. } => true,
            _ => false,
        }
    }

    /// How grave the error is.
    pub fn severity(&self) -> (r: ErrorSeverity)
        ensures
            r == error_severity(*self),
    {
        match self {
            McpError::ConnectionError { .. } => ErrorSeverity::High,
            McpError::ServiceNotFound(_) => ErrorSeverity::High,
            McpError::ServiceUnavailable { .. } => ErrorSeverity::Medium,
            McpError::Timeout { .. } => ErrorSeverity::Medium,
            McpError::SerializationError { .. } => ErrorSeverity::Medium,
            McpError::ToolCallError { .. } => ErrorSeverity::Medium,
            McpError::ResourceError { .. } => ErrorSeverity::Medium,
            McpError::AuthenticationError { .. } => ErrorSeverity::High,
            McpError::AuthorizationError { .. } => ErrorSeverity::High,
            McpError::ConfigError { .. } => ErrorSeverity::High,
            McpError::NetworkError { .. } => ErrorSeverity::Medium,
            McpError::ProtocolError { .. } => ErrorSeverity::High,
            McpError::InternalError { .. } => ErrorSeverity::High,
            McpError::Other { .. } => ErrorSeverity::Low,
        }
    }

    /// The error's text, as it is displayed.
    pub fn to_string(&self) -> (r: String)
        ensures
            r@ == mcp_error_text(*self),
    {
        match self {
            McpError::ConnectionError { service, message } => {
                let mut out = owned("连接服务 '");
                out.append(service.as_str());
                out.append("' 失败: ");
                out.append(message.as_str());
                out
            },
            McpError::ServiceNotFound(service) => {
                let mut out = owned("服务 '");
                out.append(service.as_str());
                out.append("' 未找到");
                out
            },
            McpError::ServiceUnavailable { service, reason } => {
                let mut out = owned("服务 '");
                out.append(service.as_str());
                out.append("' 不可用: ");
                out.append(reason.as_str());
                out
            },
            McpError::Timeout { service, duration } => {
                let d = format_decimal(*duration);
                let mut out = owned("服务 '");
                out.append(service.as_str());
                out.append("' 请求超时 (");
                out.append(d.as_str());
                out.append("s)");
                out
            },
            McpError::SerializationError { message } => {
                let mut out = owned("序列化错误: ");
                out.append(message.as_str());
                out
            },
            McpError::ToolCallError { service, tool, message } => {
                let mut out = owned("服务 '");
                out.append(service.as_str());
                out.append("' 工具 '");
                out.append(tool.as_str());
                out.append("' 调用失败: ");
                out.append(message.as_str());
                out
            },
            McpError::ResourceError { service, resource, message } => {
                let mut out = owned("服务 '");
                out.append(service.as_str());
                out.append("' 资源 '");
                out.append(resource.as_str());
                out.append("' 访问失败: ");
                out.append(message.as_str());
                out
            },
            McpError::AuthenticationError { service, message } => {
                let mut out = owned("服务 '");
                out.append(service.as_str());
                out.append("' 认证失败: ");
                out.append(message.as_str());
                out
            },
            McpError::AuthorizationError { service, message } => {
                let mut out = owned("服务 '");
                out.append(service.as_str());
                out.append("' 授权失败: ");
                out.append(message.as_str());
                out
            },
            McpError::ConfigError { message } => {
                let mut out = owned("配置错误: ");
                out.append(message.as_str());
                out
            },
            McpError::NetworkError { message } => {
                let mut out = owned("网络错误: ");
                out.append(message.as_str());
                out
            },
            McpError::ProtocolError { message } => {
                let mut out = owned("协议错误: ");
                out.append(message.as_str());
                out
            },
            McpError::InternalError { message } => {
                let mut out = owned("内部错误: ");
                out.append(message.as_str());
                out
            },
            McpError::Other { message } => {
                let mut out = owned("其他错误: ");
                out.append(message.as_str());
                out
            },
        }
    }
}

} // verus!
