use crate::mcp::rmcp_compat::ServiceError;
use crate::mcp::types::{McpResource, McpTool};
use std::collections::HashMap;
use vstd::prelude::*;

verus! {

/// Configuration of an MCP client.
pub struct McpClientConfig {
    /// Where the service is reached.
    pub endpoint: String,
    /// Time-out, in seconds.
    pub timeout: u64,
    /// How many times to retry.
    pub max_retries: u32,
    /// Further settings.
    pub custom_config: HashMap<String, String>,
}

impl Default for McpClientConfig {
    /// Standard input and output, 30 seconds, 3 retries, no further settings.
    fn default() -> (r: Self)
        ensures
            r.endpoint@ == "stdio"@,
            r.timeout == 30,
            r.max_retries == 3,
            r.custom_config@.len() == 0,
    {
        McpClientConfig {
            endpoint: String::from_str("stdio"),
            timeout: 30,
            max_retries: 3,
            custom_config: HashMap::new(),
        }
    }
}

#[verifier::external_type_specification]
#[verifier::external_body]
pub struct ExJsonValue(serde_json::Value);

/// The reply to a tool call: which tool of which service was called, with
/// which arguments, and its result.
pub struct ToolCallReply {
    /// The tool called.
    pub tool: String,
    /// The service it belongs to.
    pub service: String,
    /// The arguments it was given.
    pub args: serde_json::Value,
    /// The result.
    pub result: String,
}

/// A client of one MCP service: connected or not.
pub struct McpClient {
    service_name: String,
    connected: bool,
    config: McpClientConfig,
}

/// The error of a request made while not connected.
pub open spec fn not_connected_message() -> Seq<char> {
    "客户端未连接"@
}

impl McpClient {
    /// The service's name.
    pub closed spec fn spec_service_name(&self) -> Seq<char> {
        self.service_name@
    }

    /// Whether the client is connected.
    pub closed spec fn spec_connected(&self) -> bool {
        self.connected
    }

    /// A client of the service named `service_name`, not yet connected.
    pub fn new(service_name: String, config: McpClientConfig) -> (r: Result<Self, ServiceError>)
        ensures
            r matches Ok(c) && c.spec_service_name() == service_name@ && !c.spec_connected(),
    {
        Ok(McpClient { service_name, connected: false, config })
    }

    /// Connects to the service.
    pub fn connect(&mut self) -> (r: Result<(), ServiceError>)
        ensures
            r is Ok,
            final(self).spec_connected(),
            final(self).spec_service_name() == old(self).spec_service_name(),
    {
        self.connected = true;
        Ok(())
    }

    /// Disconnects from the service.
    pub fn disconnect(&mut self) -> (r: Result<(), ServiceError>)
        ensures
            r is Ok,
            !final(self).spec_connected(),
            final(self).spec_service_name() == old(self).spec_service_name(),
    {
        self.connected = false;
        Ok(())
    }

    /// Succeeds when connected; the error of a request made while not.
    pub fn require_connection(&self) -> (r: Result<(), ServiceError>)
        ensures
            self.spec_connected() ==> r is Ok,
            !self.spec_connected() ==> (r matches Err(ServiceError::InternalError(m)) && m@
                == not_connected_message()),
    {
        if !self.connected {
            return Err(ServiceError::internal_error(String::from_str("客户端未连接")));
        }
        Ok(())
    }

    /// Calls the tool `tool_name` of the service with `args`: when connected, the
    /// reply names the tool, the service and the arguments, with the result
    /// `success`; the error of a request made while not connected otherwise.
    pub fn call_tool(&self, tool_name: &str, args: serde_json::Value) -> (r: Result<ToolCallReply, ServiceError>)
        ensures
            self.spec_connected() ==> (r matches Ok(reply) && reply.tool@ == tool_name@ && reply.service@
                == self.spec_service_name() && reply.args == args && reply.result@ == "success"@),
            !self.spec_connected() ==> (r matches Err(ServiceError::InternalError(m)) && m@
                == not_connected_message()),
    {
        self.require_connection()?;
        Ok(ToolCallReply {
            tool: String::from_str(tool_name),
            service: self.service_name.clone(),
            args,
            result: String::from_str("success"),
        })
    }

    /// Reads the resource at `uri`: its content is `资源内容: ` and the URI.
    pub fn read_resource(&self, uri: &str) -> (r: Result<String, ServiceError>)
        ensures
            self.spec_connected() ==> (r matches Ok(c) && c@ == "资源内容: "@ + uri@),
            !self.spec_connected() ==> (r matches Err(ServiceError::InternalError(m)) && m@
                == not_connected_message()),
    {
        self.require_connection()?;
        let mut out = String::from_str("资源内容: ");
        out.append(uri);
        Ok(out)
    }

    /// Whether the service is healthy: it is when connected.
    pub fn health_check(&self) -> (r: Result<bool, ServiceError>)
        ensures
            r matches Ok(b) && b == self.spec_connected(),
    {
        Ok(self.connected)
    }

    /// The tools of the service; none are listed yet.
    pub fn list_tools(&self) -> (r: Result<Vec<McpTool>, ServiceError>)
        ensures
            self.spec_connected() ==> (r matches Ok(v) && v.len() == 0),
            !self.spec_connected() ==> (r matches Err(ServiceError::InternalError(m)) && m@
                == not_connected_message()),
    {
        self.require_connection()?;
        Ok(Vec::new())
    }

    /// The resources of the service; none are listed yet.
    pub fn list_resources(&self) -> (r: Result<Vec<McpResource>, ServiceError>)
        ensures
            self.spec_connected() ==> (r matches Ok(v) && v.len() == 0),
            !self.spec_connected() ==> (r matches Err(ServiceError::InternalError(m)) && m@
                == not_connected_message()),
    {
        self.require_connection()?;
        Ok(Vec::new())
    }

    /// Whether the client is connected.
    pub fn is_connected(&self) -> (r: bool)
        ensures
            r == self.spec_connected(),
    {
        self.connected
    }

    /// The service's name.
    pub fn service_name(&self) -> (r: &str)
        ensures
            r@ == self.spec_service_name(),
    {
        self.service_name.as_str()
    }
}

} // verus!
