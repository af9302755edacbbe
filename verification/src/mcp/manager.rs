use crate::mcp::registry::{offers_tool, records_view, string_views, MetadataView, RegistryError, ServiceRegistry};
use crate::text::{same_text, texts};
use vstd::prelude::*;

verus! {

/// A service the manager knows how to start.
#[derive(Debug, Clone, Copy, PartialEq, Eq, Structural)]
pub enum ServiceKind {
    /// Code review.
    Review,
    /// Commits.
    Commit,
    /// Security scans.
    Scan,
    /// Code analysis.
    Analysis,
    /// Dependency graphs.
    Dependency,
    /// Deviation from issues.
    Deviation,
}

/// The service a configured name stands for.
pub open spec fn service_kind_of(name: Seq<char>) -> Option<ServiceKind> {
    if name == "review"@ {
        Some(ServiceKind::Review)
    } else if name == "commit"@ {
        Some(ServiceKind::Commit)
    } else if name == "scan"@ {
        Some(ServiceKind::Scan)
    } else if name == "analysis"@ {
        Some(ServiceKind::Analysis)
    } else if name == "dependency"@ {
        Some(ServiceKind::Dependency)
    } else if name == "deviation"@ {
        Some(ServiceKind::Deviation)
    } else {
        None
    }
}

/// The service a configured name stands for; a configuration error naming it
/// where it is none the manager knows.
pub fn service_kind_named(name: &str) -> (r: Result<ServiceKind, RegistryError>)
    ensures
        service_kind_of(name@) matches Some(k) ==> r == Ok::<ServiceKind, RegistryError>(k),
        service_kind_of(name@) is None ==> (r matches Err(RegistryError::ConfigurationError(m)) && m@
            == "Unknown service: "@ + name@),
{
    if same_text(name, "review") {
        Ok(ServiceKind::Review)
    } else if same_text(name, "commit") {
        Ok(ServiceKind::Commit)
    } else if same_text(name, "scan") {
        Ok(ServiceKind::Scan)
    } else if same_text(name, "analysis") {
        Ok(ServiceKind::Analysis)
    } else if same_text(name, "dependency") {
        Ok(ServiceKind::Dependency)
    } else if same_text(name, "deviation") {
        Ok(ServiceKind::Deviation)
    } else {
        let mut m = String::from_str("Unknown service: ");
        m.append(name);
        Err(RegistryError::ConfigurationError(m))
    }
}

/// A tool one of the services offers.
#[derive(Debug, Clone, Copy, PartialEq, Eq, Structural)]
pub enum ServiceTool {
    /// `execute_review` of the review service.
    ExecuteReview,
    /// `execute_commit` of the commit service.
    ExecuteCommit,
    /// `execute_scan` of the scan service.
    ExecuteScan,
    /// `execute_analysis` of the analysis service.
    ExecuteAnalysis,
    /// `export_dependency_graph` of the analysis service.
    ExportDependencyGraph,
    /// `query_call_chain` of the analysis service.
    QueryCallChain,
    /// `execute_dependency_graph` of the dependency service.
    ExecuteDependencyGraph,
    /// `convert_graph_to_image` of the dependency service.
    ConvertGraphToImage,
    /// `analyze_deviation` of the deviation service.
    AnalyzeDeviation,
}

/// The tool of service `kind` named `name`, if it offers one.
pub open spec fn service_tool_of(kind: ServiceKind, name: Seq<char>) -> Option<ServiceTool> {
    match kind {
        ServiceKind::Review => if name == "execute_review"@ { Some(ServiceTool::ExecuteReview) } else { None },
        ServiceKind::Commit => if name == "execute_commit"@ { Some(ServiceTool::ExecuteCommit) } else { None },
        ServiceKind::Scan => if name == "execute_scan"@ { Some(ServiceTool::ExecuteScan) } else { None },
        ServiceKind::Analysis => if name == "execute_analysis"@ {
            Some(ServiceTool::ExecuteAnalysis)
        } else if name == "export_dependency_graph"@ {
            Some(ServiceTool::ExportDependencyGraph)
        } else if name == "query_call_chain"@ {
            Some(ServiceTool::QueryCallChain)
        } else {
            None
        },
        ServiceKind::Dependency => if name == "execute_dependency_graph"@ {
            Some(ServiceTool::ExecuteDependencyGraph)
        } else if name == "convert_graph_to_image"@ {
            Some(ServiceTool::ConvertGraphToImage)
        } else {
            None
        },
        ServiceKind::Deviation => if name == "analyze_deviation"@ { Some(ServiceTool::AnalyzeDeviation) } else { None },
    }
}

/// The error a call of a tool nobody offers gets.
pub fn unknown_tool_error(name: &str) -> (r: RegistryError)
    ensures
        r matches RegistryError::InvalidParameters(m) && m@ == "Unknown tool: "@ + name@,
{
    let mut m = String::from_str("Unknown tool: ");
    m.append(name);
    RegistryError::InvalidParameters(m)
}

/// Routes a tool call to service `kind`: the tool it names, or an error naming
/// the tool where the service offers none by that name.
pub fn handle_tool_call(kind: ServiceKind, name: &str) -> (r: Result<ServiceTool, RegistryError>)
    ensures
        service_tool_of(kind, name@) matches Some(t) ==> r == Ok::<ServiceTool, RegistryError>(t),
        service_tool_of(kind, name@) is None ==> (r matches Err(RegistryError::InvalidParameters(m)) && m@
            == "Unknown tool: "@ + name@),
{
    let found = match kind {
        ServiceKind::Review => if same_text(name, "execute_review") { Some(ServiceTool::ExecuteReview) } else { None },
        ServiceKind::Commit => if same_text(name, "execute_commit") { Some(ServiceTool::ExecuteCommit) } else { None },
        ServiceKind::Scan => if same_text(name, "execute_scan") { Some(ServiceTool::ExecuteScan) } else { None },
        ServiceKind::Analysis => if same_text(name, "execute_analysis") {
            Some(ServiceTool::ExecuteAnalysis)
        } else if same_text(name, "export_dependency_graph") {
            Some(ServiceTool::ExportDependencyGraph)
        } else if same_text(name, "query_call_chain") {
            Some(ServiceTool::QueryCallChain)
        } else {
            None
        },
        ServiceKind::Dependency => if same_text(name, "execute_dependency_graph") {
            Some(ServiceTool::ExecuteDependencyGraph)
        } else if same_text(name, "convert_graph_to_image") {
            Some(ServiceTool::ConvertGraphToImage)
        } else {
            None
        },
        ServiceKind::Deviation => if same_text(name, "analyze_deviation") {
            Some(ServiceTool::AnalyzeDeviation)
        } else {
            None
        },
    };
    match found {
        Some(t) => Ok(t),
        None => Err(unknown_tool_error(name)),
    }
}

/// The tool named `name` of the first of `kinds` that offers one.
pub open spec fn first_tool(kinds: Seq<ServiceKind>, name: Seq<char>) -> Option<ServiceTool>
    decreases kinds.len(),
{
    if kinds.len() == 0 {
        None
    } else {
        match service_tool_of(kinds[0], name) {
            Some(t) => Some(t),
            None => first_tool(kinds.skip(1), name),
        }
    }
}

/// Routes a tool call among the running services `kinds`, in order: the tool
/// of the first that offers one by that name, else the unknown-tool error.
pub fn route_tool_call(kinds: &Vec<ServiceKind>, name: &str) -> (r: Result<ServiceTool, RegistryError>)
    ensures
        first_tool(kinds@, name@) matches Some(t) ==> r == Ok::<ServiceTool, RegistryError>(t),
        first_tool(kinds@, name@) is None ==> (r matches Err(RegistryError::InvalidParameters(m)) && m@
            == "Unknown tool: "@ + name@),
{
    let mut i: usize = 0;
    assert(kinds@.skip(0) =~= kinds@);
    while i < kinds.len()
        invariant
            i <= kinds.len(),
            first_tool(kinds@, name@) == first_tool(kinds@.skip(i as int), name@),
        decreases kinds.len() - i,
    {
        let ghost rest = kinds@.skip(i as int);
        assert(rest[0] == kinds@[i as int]);
        assert(rest.skip(1) =~= kinds@.skip(i + 1));
        match handle_tool_call(kinds[i], name) {
            Ok(t) => {
                return Ok(t);
            },
            Err(_) => {},
        }
        i = i + 1;
    }
    assert(kinds@.skip(i as int).len() == 0);
    Err(unknown_tool_error(name))
}

/// The tools of the first `k` services of `s`, service after service.
pub open spec fn all_tools(s: Seq<MetadataView>, k: int) -> Seq<Seq<char>>
    decreases k,
{
    if k <= 0 {
        Seq::empty()
    } else {
        all_tools(s, k - 1) + s[k - 1].tools
    }
}

/// The registry of the running services, as the manager uses it.
pub struct ManagedServiceRegistry<S> {
    /// The registry.
    pub registry: ServiceRegistry<S>,
}

impl<S> ManagedServiceRegistry<S> {
    /// No services yet.
    pub fn new() -> (r: Self)
        ensures
            r.registry.wf(),
            r.registry.records().len() == 0,
            r.registry.instances().len() == 0,
    {
        ManagedServiceRegistry { registry: ServiceRegistry::new() }
    }

    /// The names of the tools of all services, in the order the services were
    /// registered.
    pub fn get_all_tools(&self) -> (r: Vec<String>)
        ensures
            texts(r@) == all_tools(self.registry.records(), self.registry.records().len() as int),
    {
        let services = self.registry.list_services();
        let ghost s = self.registry.records();
        assert(records_view(services@) == s);
        let mut out: Vec<String> = Vec::new();
        let mut i: usize = 0;
        while i < services.len()
            invariant
                i <= services.len(),
                records_view(services@) == s,
                texts(out@) == all_tools(s, i as int),
            decreases services.len() - i,
        {
            let tools = &services[i].tools;
            let ghost start = texts(out@);
            assert(s[i as int].tools == string_views(tools@));
            let mut k: usize = 0;
            while k < tools.len()
                invariant
                    k <= tools.len(),
                    texts(out@) == start + string_views(tools@).take(k as int),
                decreases tools.len() - k,
            {
                let ghost before = texts(out@);
                out.push(tools[k].clone());
                assert(texts(out@) =~= before.push(tools@[k as int]@));
                assert(string_views(tools@).take(k + 1) =~= string_views(tools@).take(k as int).push(tools@[k as int]@));
                k = k + 1;
            }
            assert(string_views(tools@).take(tools.len() as int) =~= string_views(tools@));
            i = i + 1;
        }
        out
    }

    /// The service that handles the tool `tool`: the first registered one that
    /// offers it; an error naming the tool where none does.
    pub fn handle_tool_call(&self, tool: &str) -> (r: Result<&S, RegistryError>)
        requires
            self.registry.wf(),
        ensures
            r is Err <==> forall|i: int|
                0 <= i < self.registry.records().len() ==> !offers_tool(#[trigger] self.registry.records()[i], tool@),
            r matches Err(RegistryError::InvalidParameters(m)) ==> m@ == "Unknown tool: "@ + tool@,
            r is Err ==> r matches Err(RegistryError::InvalidParameters(_)),
            r matches Ok(x) ==> exists|i: int|
                0 <= i < self.registry.records().len() && offers_tool(self.registry.records()[i], tool@) && (forall|j: int|
                    0 <= j < i ==> !offers_tool(#[trigger] self.registry.records()[j], tool@)) && *x
                    == self.registry.instances()[i],
    {
        match self.registry.find_service_by_tool(tool) {
            Some(x) => Ok(x),
            None => Err(unknown_tool_error(tool)),
        }
    }
}

} // verus!
