use crate::text::same_text;
use crate::mcp::types::{tool_param, tool_spec, tools_view, ToolSpec};
use vstd::prelude::*;

verus! {

/// A request the stdio server understands.
#[derive(Debug, Clone, Copy, PartialEq, Eq, Structural)]
pub enum ServerMethod {
    /// `initialize`.
    Initialize,
    /// `tools/list`.
    ToolsList,
    /// `tools/call`.
    ToolsCall,
    /// Anything else.
    NotFound,
}

/// The request a method name stands for.
pub open spec fn server_method_of(method: Seq<char>) -> ServerMethod {
    if method == "initialize"@ {
        ServerMethod::Initialize
    } else if method == "tools/list"@ {
        ServerMethod::ToolsList
    } else if method == "tools/call"@ {
        ServerMethod::ToolsCall
    } else {
        ServerMethod::NotFound
    }
}

/// The request a method name stands for (see `server_method_of`).
pub fn server_method(method: &str) -> (r: ServerMethod)
    ensures
        r == server_method_of(method@),
{
    if same_text(method, "initialize") {
        ServerMethod::Initialize
    } else if same_text(method, "tools/list") {
        ServerMethod::ToolsList
    } else if same_text(method, "tools/call") {
        ServerMethod::ToolsCall
    } else {
        ServerMethod::NotFound
    }
}

/// The JSON-RPC code of a method the server does not know.
pub const METHOD_NOT_FOUND: i32 = -32601;

/// The message for a method the server does not know.
pub fn method_not_found_message(method: &str) -> (r: String)
    ensures
        r@ == "Method not found: "@ + method@,
{
    let mut m = String::from_str("Method not found: ");
    m.append(method);
    m
}

/// Why a tool call failed.
pub enum ToolFailure {
    /// The parameters were wrong.
    InvalidParameters(String),
    /// The work failed.
    ExecutionFailed(String),
    /// The configuration is wrong.
    ConfigurationError(String),
    /// A file could not be handled.
    FileOperationError(String),
    /// The network failed.
    NetworkError(String),
    /// An outside tool failed.
    ExternalToolError(String),
    /// Permission was refused.
    PermissionError(String),
    /// It took too long.
    TimeoutError(String),
    /// Anything else.
    Unknown(String),
}

/// The JSON-RPC error code of a failure.
pub open spec fn failure_code(f: ToolFailure) -> i32 {
    match f {
        ToolFailure::InvalidParameters(_) => -32602i32,
        ToolFailure::ExecutionFailed(_) => -32000i32,
        ToolFailure::ConfigurationError(_) => -32603i32,
        ToolFailure::FileOperationError(_) => -32001i32,
        ToolFailure::NetworkError(_) => -32002i32,
        ToolFailure::ExternalToolError(_) => -32003i32,
        ToolFailure::PermissionError(_) => -32004i32,
        ToolFailure::TimeoutError(_) => -32005i32,
        ToolFailure::Unknown(_) => -32603i32,
    }
}

/// The name of the kind of a failure.
pub open spec fn failure_type(f: ToolFailure) -> Seq<char> {
    match f {
        ToolFailure::InvalidParameters(_) => "InvalidParameters"@,
        ToolFailure::ExecutionFailed(_) => "ExecutionFailed"@,
        ToolFailure::ConfigurationError(_) => "ConfigurationError"@,
        ToolFailure::FileOperationError(_) => "FileOperationError"@,
        ToolFailure::NetworkError(_) => "NetworkError"@,
        ToolFailure::ExternalToolError(_) => "ExternalToolError"@,
        ToolFailure::PermissionError(_) => "PermissionError"@,
        ToolFailure::TimeoutError(_) => "TimeoutError"@,
        ToolFailure::Unknown(_) => "Unknown"@,
    }
}

/// The message a failure carries.
pub open spec fn failure_message(f: ToolFailure) -> Seq<char> {
    match f {
        ToolFailure::InvalidParameters(m) => m@,
        ToolFailure::ExecutionFailed(m) => m@,
        ToolFailure::ConfigurationError(m) => m@,
        ToolFailure::FileOperationError(m) => m@,
        ToolFailure::NetworkError(m) => m@,
        ToolFailure::ExternalToolError(m) => m@,
        ToolFailure::PermissionError(m) => m@,
        ToolFailure::TimeoutError(m) => m@,
        ToolFailure::Unknown(m) => m@,
    }
}

/// The error a failed tool call is answered with: its JSON-RPC code, the name
/// of its kind and its message.
pub fn rpc_error_of(f: ToolFailure) -> (r: (i32, &'static str, String))
    ensures
        r.0 == failure_code(f),
        r.1@ == failure_type(f),
        r.2@ == failure_message(f),
{
    match f {
        ToolFailure::InvalidParameters(m) => (-32602, "InvalidParameters", m),
        ToolFailure::ExecutionFailed(m) => (-32000, "ExecutionFailed", m),
        ToolFailure::ConfigurationError(m) => (-32603, "ConfigurationError", m),
        ToolFailure::FileOperationError(m) => (-32001, "FileOperationError", m),
        ToolFailure::NetworkError(m) => (-32002, "NetworkError", m),
        ToolFailure::ExternalToolError(m) => (-32003, "ExternalToolError", m),
        ToolFailure::PermissionError(m) => (-32004, "PermissionError", m),
        ToolFailure::TimeoutError(m) => (-32005, "TimeoutError", m),
        ToolFailure::Unknown(m) => (-32603, "Unknown", m),
    }
}

/// The tools the stdio server lists, in order.
pub open spec fn server_tool_names() -> Seq<Seq<char>> {
    seq!["execute_review"@, "execute_commit"@, "execute_scan"@, "execute_analysis"@]
}

/// The tools the stdio server lists, in order.
pub fn server_tools() -> (r: Vec<String>)
    ensures
        crate::text::texts(r@) == server_tool_names(),
{
    let r = vec![
        String::from_str("execute_review"),
        String::from_str("execute_commit"),
        String::from_str("execute_scan"),
        String::from_str("execute_analysis"),
    ];
    assert(crate::text::texts(r@) =~= server_tool_names());
    r
}

/// The stdio server's tools as plain values (see `bridge_tools_table` for the
/// shape).
pub open spec fn server_tools_table() -> Seq<
    (Seq<char>, Seq<char>, Seq<(Seq<char>, Seq<char>, Option<Seq<char>>, Option<Seq<char>>, bool)>),
> {
    seq![
        ("execute_review"@, "Execute code review"@, seq![
            ("tree_sitter"@, "boolean"@, None, None, false),
            ("security_scan"@, "boolean"@, None, None, false),
        ]),
        ("execute_commit"@, "Execute smart commit"@, seq![
            ("message"@, "string"@, None, None, false),
            ("issue_ids"@, "array"@, Some("string"@), None, false),
        ]),
        ("execute_scan"@, "Execute security scan"@, seq![
            ("path"@, "string"@, None, None, true),
            ("tool"@, "string"@, None, None, false),
        ]),
        ("execute_analysis"@, "Execute code analysis"@, seq![
            ("path"@, "string"@, None, None, true),
            ("language"@, "string"@, None, None, false),
        ]),
    ]
}

/// The tools the stdio server lists, described (see `server_tools_table`), in
/// the order of `server_tools`.
pub fn server_tool_specs() -> (r: Vec<ToolSpec>)
    ensures
        tools_view(r@) == server_tools_table(),
{
    let review = vec![
        tool_param("tree_sitter", "boolean", None, None, false),
        tool_param("security_scan", "boolean", None, None, false),
    ];
    let commit = vec![
        tool_param("message", "string", None, None, false),
        tool_param("issue_ids", "array", Some("string"), None, false),
    ];
    let scan = vec![tool_param("path", "string", None, None, true), tool_param("tool", "string", None, None, false)];
    let analysis = vec![
        tool_param("path", "string", None, None, true),
        tool_param("language", "string", None, None, false),
    ];
    let r = vec![
        tool_spec("execute_review", "Execute code review", review),
        tool_spec("execute_commit", "Execute smart commit", commit),
        tool_spec("execute_scan", "Execute security scan", scan),
        tool_spec("execute_analysis", "Execute code analysis", analysis),
    ];
    assert(tools_view(r@) =~~= server_tools_table());
    r
}

} // verus!
