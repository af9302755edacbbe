use crate::mcp::registry::now_millis;
use crate::mcp::utils::ConfigMap;
use vstd::prelude::*;

verus! {

/// A tool an MCP service offers.
pub struct McpTool {
    /// Tool name.
    pub name: String,
    /// What the tool does.
    pub description: String,
    /// JSON schema of its input, as JSON text.
    pub input_schema: String,
}

/// A resource an MCP service offers.
pub struct McpResource {
    /// Resource URI.
    pub uri: String,
    /// What the resource holds.
    pub description: String,
    /// Kind of resource, if known.
    pub resource_type: Option<String>,
    /// Whether it can be read.
    pub readable: bool,
    /// Whether it can be written.
    pub writable: bool,
}

/// State of an MCP service.
#[derive(Debug, Clone, Copy, PartialEq, Eq, Structural)]
pub enum ServiceStatus {
    /// Running.
    Running,
    /// Stopped.
    Stopped,
    /// Being started.
    Starting,
    /// Being stopped.
    Stopping,
    /// Failed.
    Error,
    /// Not known.
    Unknown,
}

/// The name of a status, as it is displayed.
pub open spec fn service_status_text(s: ServiceStatus) -> Seq<char> {
    match s {
        ServiceStatus::Running => "运行中"@,
        ServiceStatus::Stopped => "已停止"@,
        ServiceStatus::Starting => "启动中"@,
        ServiceStatus::Stopping => "停止中"@,
        ServiceStatus::Error => "错误"@,
        ServiceStatus::Unknown => "未知"@,
    }
}

impl ServiceStatus {
    /// The status's name, as it is displayed.
    pub fn to_string(&self) -> (r: String)
        ensures
            r@ == service_status_text(*self),
    {
        match self {
            ServiceStatus::Running => String::from_str("运行中"),
            ServiceStatus::Stopped => String::from_str("已停止"),
            ServiceStatus::Starting => String::from_str("启动中"),
            ServiceStatus::Stopping => String::from_str("停止中"),
            ServiceStatus::Error => String::from_str("错误"),
            ServiceStatus::Unknown => String::from_str("未知"),
        }
    }
}

impl Default for ServiceStatus {
    /// A status not yet known.
    fn default() -> (r: Self)
        ensures
            r == ServiceStatus::Unknown,
    {
        ServiceStatus::Unknown
    }
}

/// How a resource is accessed.
#[derive(Debug, Clone, Copy, PartialEq, Eq, Structural)]
pub enum ResourceAccessType {
    /// Read it.
    Read,
    /// Write it.
    Write,
    /// List it.
    List,
    /// Delete it.
    Delete,
}

/// A request to find services.
pub struct ServiceDiscoveryRequest {
    /// Pattern the service names must match.
    pub name_pattern: Option<String>,
    /// Kind of service wanted.
    pub service_type: Option<String>,
    /// Version requirement.
    pub version_requirement: Option<String>,
    /// Whether to return only available services.
    pub available_only: bool,
}

/// Kind of an operation in a batch.
#[derive(Debug, Clone, Copy, PartialEq, Eq, Structural)]
pub enum BatchOperationType {
    /// A tool call.
    ToolCall,
    /// A resource access.
    ResourceAccess,
    /// A health check.
    HealthCheck,
}

/// Response to a tool call.
pub struct ToolCallResponse {
    /// Identifier of the request answered.
    pub request_id: Option<String>,
    /// Whether the call succeeded.
    pub success: bool,
    /// Its result, as JSON text.
    pub result: Option<String>,
    /// Its error message.
    pub error: Option<String>,
    /// How long it took, in milliseconds.
    pub execution_time: Option<u64>,
}

impl ToolCallResponse {
    /// A successful response carrying `result`.
    pub fn success(result: String) -> (r: Self)
        ensures
            r.success,
            r.result matches Some(x) && x@ == result@,
            r.error is None,
            r.request_id is None,
            r.execution_time is None,
    {
        ToolCallResponse { request_id: None, success: true, result: Some(result), error: None, execution_time: None }
    }

    /// A failed response carrying `error`.
    pub fn error(error: String) -> (r: Self)
        ensures
            !r.success,
            r.result is None,
            r.error matches Some(x) && x@ == error@,
            r.request_id is None,
            r.execution_time is None,
    {
        ToolCallResponse { request_id: None, success: false, result: None, error: Some(error), execution_time: None }
    }
}

/// Response to a resource access.
pub struct ResourceResponse {
    /// Whether the access succeeded.
    pub success: bool,
    /// The resource's content, as JSON text.
    pub content: Option<String>,
    /// Its error message.
    pub error: Option<String>,
}

impl ResourceResponse {
    /// A successful response carrying `content`.
    pub fn success(content: String) -> (r: Self)
        ensures
            r.success,
            r.content matches Some(x) && x@ == content@,
            r.error is None,
    {
        ResourceResponse { success: true, content: Some(content), error: None }
    }

    /// A failed response carrying `error`.
    pub fn error(error: String) -> (r: Self)
        ensures
            !r.success,
            r.content is None,
            r.error matches Some(x) && x@ == error@,
    {
        ResourceResponse { success: false, content: None, error: Some(error) }
    }
}

/// The answer to a health check.
pub struct HealthCheckResponse {
    /// Whether the service is healthy.
    pub healthy: bool,
    /// What its state is.
    pub status: String,
    /// When it was checked, in milliseconds since the Unix epoch.
    pub timestamp: i64,
    /// Further details, each as JSON text.
    pub details: ConfigMap<String>,
}

impl HealthCheckResponse {
    /// A healthy answer with `status`, checked now, with no details.
    pub fn healthy(status: String) -> (r: Self)
        ensures
            r.healthy,
            r.status == status,
            r.details.wf(),
            r.details@ == Map::<Seq<char>, String>::empty(),
    {
        HealthCheckResponse { healthy: true, status, timestamp: now_millis(), details: ConfigMap::new() }
    }

    /// An unhealthy answer with `status`, checked now, with no details.
    pub fn unhealthy(status: String) -> (r: Self)
        ensures
            !r.healthy,
            r.status == status,
            r.details.wf(),
            r.details@ == Map::<Seq<char>, String>::empty(),
    {
        HealthCheckResponse { healthy: false, status, timestamp: now_millis(), details: ConfigMap::new() }
    }
}

/// A parameter of a tool: its name, its JSON type (with the type of its
/// items, for an array), what it is, and whether it must be given.
pub struct ToolParam {
    /// Name.
    pub name: String,
    /// JSON type.
    pub param_type: String,
    /// JSON type of the items, for an array.
    pub item_type: Option<String>,
    /// What it is.
    pub description: Option<String>,
    /// Whether it must be given.
    pub required: bool,
}

/// A tool as it is listed: its name, what it does, and its parameters; its
/// input schema is a JSON object with one property per parameter.
pub struct ToolSpec {
    /// Name.
    pub name: String,
    /// What it does.
    pub description: String,
    /// Parameters, in order.
    pub params: Vec<ToolParam>,
}

/// The value of an optional string.
pub open spec fn opt_text_of(s: Option<String>) -> Option<Seq<char>> {
    match s {
        Some(t) => Some(t@),
        None => None,
    }
}

/// A parameter as plain values.
pub open spec fn param_view(p: ToolParam) -> (Seq<char>, Seq<char>, Option<Seq<char>>, Option<Seq<char>>, bool) {
    (p.name@, p.param_type@, opt_text_of(p.item_type), opt_text_of(p.description), p.required)
}

/// A tool as plain values.
pub open spec fn tool_view(t: ToolSpec) -> (
    Seq<char>,
    Seq<char>,
    Seq<(Seq<char>, Seq<char>, Option<Seq<char>>, Option<Seq<char>>, bool)>,
) {
    (t.name@, t.description@, t.params@.map_values(|p: ToolParam| param_view(p)))
}

/// Tools as plain values.
pub open spec fn tools_view(ts: Seq<ToolSpec>) -> Seq<
    (Seq<char>, Seq<char>, Seq<(Seq<char>, Seq<char>, Option<Seq<char>>, Option<Seq<char>>, bool)>),
> {
    ts.map_values(|t: ToolSpec| tool_view(t))
}

/// A parameter of a tool with the values given.
pub fn tool_param(name: &str, param_type: &str, item_type: Option<&str>, description: Option<&str>, required: bool) -> (r:
    ToolParam)
    ensures
        param_view(r) == (name@, param_type@, match item_type {
            Some(t) => Some(t@),
            None => None::<Seq<char>>,
        }, match description {
            Some(d) => Some(d@),
            None => None::<Seq<char>>,
        }, required),
{
    ToolParam {
        name: String::from_str(name),
        param_type: String::from_str(param_type),
        item_type: match item_type {
            Some(t) => Some(String::from_str(t)),
            None => None,
        },
        description: match description {
            Some(d) => Some(String::from_str(d)),
            None => None,
        },
        required,
    }
}

/// A tool with the values given.
pub fn tool_spec(name: &str, description: &str, params: Vec<ToolParam>) -> (r: ToolSpec)
    ensures
        tool_view(r) == (name@, description@, params@.map_values(|p: ToolParam| param_view(p))),
{
    ToolSpec { name: String::from_str(name), description: String::from_str(description), params }
}

} // verus!
