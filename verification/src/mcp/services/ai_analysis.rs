use crate::mcp::rmcp_compat::ServiceError;
use crate::mcp::McpService;
use vstd::prelude::*;

verus! {

/// The AI analysis service (a placeholder that only starts and stops).
pub struct AiAnalysisService {
    name: String,
    version: String,
    description: String,
    running: bool,
}

impl AiAnalysisService {
    /// The service's name.
    pub closed spec fn spec_name(&self) -> Seq<char> {
        self.name@
    }

    /// The service's version.
    pub closed spec fn spec_version(&self) -> Seq<char> {
        self.version@
    }

    /// What the service does.
    pub closed spec fn spec_description(&self) -> Seq<char> {
        self.description@
    }

    /// Whether the service runs.
    pub closed spec fn spec_running(&self) -> bool {
        self.running
    }

    /// The service, stopped.
    pub fn new() -> (r: Self)
        ensures
            r.spec_name() == "gitai-ai-analysis-service"@,
            r.spec_version() == "1.0.0"@,
            r.spec_description() == "GitAI AI 分析服务"@,
            !r.spec_running(),
    {
        AiAnalysisService {
            name: String::from_str("gitai-ai-analysis-service"),
            version: String::from_str("1.0.0"),
            description: String::from_str("GitAI AI 分析服务"),
            running: false,
        }
    }

    /// Whether the service runs.
    pub fn is_running(&self) -> (r: bool)
        ensures
            r == self.spec_running(),
    {
        self.running
    }
}

impl McpService for AiAnalysisService {
    fn name(&self) -> (r: &str)
        ensures
            r@ == self.spec_name(),
    {
        self.name.as_str()
    }

    fn version(&self) -> (r: &str)
        ensures
            r@ == self.spec_version(),
    {
        self.version.as_str()
    }

    fn description(&self) -> (r: &str)
        ensures
            r@ == self.spec_description(),
    {
        self.description.as_str()
    }

    fn start_sync(&mut self) -> (r: Result<(), ServiceError>)
        ensures
            r is Ok,
            final(self).spec_running(),
            final(self).spec_name() == old(self).spec_name(),
            final(self).spec_version() == old(self).spec_version(),
    {
        self.running = true;
        Ok(())
    }

    fn stop_sync(&mut self) -> (r: Result<(), ServiceError>)
        ensures
            r is Ok,
            !final(self).spec_running(),
            final(self).spec_name() == old(self).spec_name(),
            final(self).spec_version() == old(self).spec_version(),
    {
        self.running = false;
        Ok(())
    }

    fn health_check_sync(&self) -> (r: Result<bool, ServiceError>)
        ensures
            r matches Ok(b) && b == self.spec_running(),
    {
        Ok(self.running)
    }

    fn get_handler_info(&self) -> (r: String)
        ensures
            r@ == "AiAnalysisHandler for service: "@ + self.spec_name(),
    {
        let mut out = String::from_str("AiAnalysisHandler for service: ");
        out.append(self.name.as_str());
        out
    }
}

/// The handler of the AI analysis service: it offers no tools or resources.
pub struct AiAnalysisHandler {
    service: AiAnalysisService,
}

impl AiAnalysisHandler {
    /// A handler of `service`.
    pub fn new(service: AiAnalysisService) -> (r: Self)
        ensures
            r.spec_service() == service,
    {
        AiAnalysisHandler { service }
    }

    /// The service handled.
    pub closed spec fn spec_service(&self) -> AiAnalysisService {
        self.service
    }

    /// Calling a tool is not supported.
    pub fn call_tool(&self, name: &str, args: &str) -> (r: Result<String, ServiceError>)
        ensures
            r matches Err(ServiceError::MethodNotFound(m)) && m@ == "call_tool"@,
    {
        Err(ServiceError::MethodNotFound(String::from_str("call_tool")))
    }

    /// Reading a resource is not supported.
    pub fn read_resource(&self, uri: &str) -> (r: Result<String, ServiceError>)
        ensures
            r matches Err(ServiceError::MethodNotFound(m)) && m@ == "read_resource"@,
    {
        Err(ServiceError::MethodNotFound(String::from_str("read_resource")))
    }
}

} // verus!
