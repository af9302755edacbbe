use gitai::mcp::manager::{handle_tool_call, ManagedServiceRegistry, ServiceKind, ServiceTool};
use gitai::mcp::registry::{
    RegistryError, ServiceDependency, ServiceDescriptor, ServiceEvent, ServiceRegistry, ServiceStatus,
};

fn descriptor(name: &str, version: &str, deps: &[(&str, &str, bool)]) -> ServiceDescriptor {
    ServiceDescriptor {
        name: name.to_string(),
        description: format!("{} service", name),
        version: version.to_string(),
        tools: vec![format!("test_{}", name)],
        dependencies: deps
            .iter()
            .map(|(n, r, o)| ServiceDependency {
                service_name: n.to_string(),
                version_req: r.to_string(),
                optional: *o,
            })
            .collect(),
    }
}

fn register(reg: &mut ServiceRegistry<String>, d: ServiceDescriptor) -> Result<(), RegistryError> {
    let name = d.name.clone();
    reg.register_service(name, d, "{}".to_string())
}

fn id_of(reg: &ServiceRegistry<String>, name: &str) -> String {
    reg.list_services().into_iter().find(|s| s.name == name).unwrap().id
}

#[test]
fn test_service_registration() {
    let mut registry = ServiceRegistry::new();
    let result = register(&mut registry, descriptor("test_service", "1.0.0", &[]));
    assert!(result.is_ok());
    let services = registry.list_services();
    assert_eq!(services.len(), 1);
    assert_eq!(services[0].name, "test_service");
    assert_eq!(services[0].status, ServiceStatus::Up);
    assert!(services[0].id.starts_with("test_service_"));
}

#[test]
fn test_service_unregistration() {
    let mut registry = ServiceRegistry::new();
    register(&mut registry, descriptor("test_service", "1.0.0", &[])).unwrap();
    let services = registry.list_services();
    assert_eq!(services.len(), 1);
    registry.unregister_service(&services[0].id, "Test removal".to_string()).unwrap();
    assert_eq!(registry.list_services().len(), 0);
}

#[test]
fn test_find_service_by_tool() {
    let mut registry = ServiceRegistry::new();
    register(&mut registry, descriptor("test_service", "1.0.0", &[])).unwrap();
    let found = registry.find_service_by_tool("test_test_service");
    assert_eq!(found.map(|s| s.as_str()), Some("test_service"));
    assert!(registry.find_service_by_tool("nonexistent_tool").is_none());
}

#[test]
fn test_service_status_update() {
    let mut registry = ServiceRegistry::new();
    register(&mut registry, descriptor("test_service", "1.0.0", &[])).unwrap();
    let id = registry.list_services()[0].id.clone();
    registry.update_service_status(&id, ServiceStatus::Degraded).unwrap();
    assert_eq!(registry.list_services()[0].status, ServiceStatus::Degraded);
    assert_eq!(registry.get_healthy_services().len(), 0);
    assert!(registry.update_service_status("missing", ServiceStatus::Up).is_err());
}

#[test]
fn test_event_listener() {
    let mut registry = ServiceRegistry::new();
    register(&mut registry, descriptor("test_service", "1.0.0", &[])).unwrap();
    let events = registry.take_events();
    assert!(!events.is_empty());
    assert!(events.iter().any(|e| matches!(e, ServiceEvent::Registered { .. })));
    assert!(matches!(
        events[0],
        ServiceEvent::StatusChanged { old_status: ServiceStatus::Starting, new_status: ServiceStatus::Up, .. }
    ));
    assert!(registry.take_events().is_empty());
}

#[test]
fn test_duplicate_service_registration() {
    let mut registry = ServiceRegistry::new();
    assert!(register(&mut registry, descriptor("test_service", "1.0.0", &[])).is_ok());
    let second = register(&mut registry, descriptor("test_service", "1.0.0", &[]));
    assert!(second.is_err());
    assert_eq!(
        second.unwrap_err().to_string(),
        "Configuration error: Service 'test_service' is already registered"
    );
}

#[test]
fn test_service_dependencies() {
    let mut registry = ServiceRegistry::new();
    let dependent = || descriptor("dependent_service", "1.0.0", &[("base_service", ">=1.0.0", false)]);
    let err = register(&mut registry, dependent()).unwrap_err();
    assert_eq!(
        err.to_string(),
        "Configuration error: Service dependent_service depends on base_service which is not registered"
    );
    assert!(register(&mut registry, descriptor("base_service", "1.0.0", &[])).is_ok());
    assert!(register(&mut registry, dependent()).is_ok());
}

#[test]
fn test_circular_dependency_detection() {
    let mut registry = ServiceRegistry::new();
    register(&mut registry, descriptor("service_a", "1.0.0", &[])).unwrap();
    register(&mut registry, descriptor("service_b", "1.0.0", &[("service_a", ">=1.0.0", false)])).unwrap();
    register(&mut registry, descriptor("service_c", "1.0.0", &[("service_b", ">=1.0.0", false)])).unwrap();
    register(&mut registry, descriptor("service_d", "1.0.0", &[("service_c", ">=1.0.0", false)])).unwrap();
    let (a, b, c, d) = (
        id_of(&registry, "service_a"),
        id_of(&registry, "service_b"),
        id_of(&registry, "service_c"),
        id_of(&registry, "service_d"),
    );
    registry.unregister_service(&d, "test".to_string()).unwrap();
    registry.unregister_service(&c, "test".to_string()).unwrap();
    registry.unregister_service(&b, "test".to_string()).unwrap();
    registry.unregister_service(&a, "test".to_string()).unwrap();
    let result_a = register(&mut registry, descriptor("service_a", "1.0.0", &[("service_b", ">=1.0.0", false)]));
    assert!(result_a.is_err());
    let result_b = register(&mut registry, descriptor("service_b", "1.0.0", &[("service_a", ">=1.0.0", false)]));
    assert!(result_b.is_err());
}

#[test]
fn cycle_through_optional_dependency_is_refused() {
    let mut registry = ServiceRegistry::new();
    register(&mut registry, descriptor("a", "1.0.0", &[("b", "*", true)])).unwrap();
    let err = register(&mut registry, descriptor("b", "1.0.0", &[("a", "*", false)])).unwrap_err();
    let text = err.to_string();
    assert!(text.starts_with("Configuration error: Circular dependency detected when registering service b. Cycles: "));
    assert!(text.contains(" -> "));
    assert_eq!(registry.list_services().len(), 1);
    assert!(registry.detect_circular_dependencies().is_ok());
}

#[test]
fn test_version_compatibility() {
    let mut registry = ServiceRegistry::new();
    register(&mut registry, descriptor("base_service", "1.0.0", &[])).unwrap();
    let result = register(&mut registry, descriptor("dependent_service", "1.0.0", &[("base_service", ">=2.0.0", false)]));
    assert!(result.is_err());
    assert!(result.unwrap_err().to_string().contains("version"));
}

#[test]
fn test_cascade_unregistration_prevention() {
    let mut registry = ServiceRegistry::new();
    register(&mut registry, descriptor("base_service", "1.0.0", &[])).unwrap();
    register(&mut registry, descriptor("dependent_service", "1.0.0", &[("base_service", ">=1.0.0", false)])).unwrap();
    let base_id = id_of(&registry, "base_service");
    let result = registry.unregister_service(&base_id, "test removal".to_string());
    assert!(result.is_err());
    let text = result.unwrap_err().to_string();
    assert!(text.contains("required by"));
    assert_eq!(
        text,
        "Configuration error: Cannot remove service base_service because it is required by: dependent_service"
    );
}

#[test]
fn test_optional_dependency() {
    let mut registry = ServiceRegistry::new();
    let result = register(
        &mut registry,
        descriptor("service_with_optional", "1.0.0", &[("optional_service", ">=1.0.0", true)]),
    );
    assert!(result.is_ok());
}

#[test]
fn test_startup_order() {
    let mut registry = ServiceRegistry::new();
    register(&mut registry, descriptor("service_a", "1.0.0", &[])).unwrap();
    register(&mut registry, descriptor("service_b", "1.0.0", &[("service_a", ">=1.0.0", false)])).unwrap();
    register(&mut registry, descriptor("service_c", "1.0.0", &[("service_b", ">=1.0.0", false)])).unwrap();
    let startup_order = registry.get_startup_order().unwrap();
    let services = registry.list_services();
    let names: Vec<String> = startup_order
        .iter()
        .map(|id| services.iter().find(|s| &s.id == id).unwrap().name.clone())
        .collect();
    let a_pos = names.iter().position(|n| n == "service_a").unwrap();
    let b_pos = names.iter().position(|n| n == "service_b").unwrap();
    let c_pos = names.iter().position(|n| n == "service_c").unwrap();
    assert!(a_pos < b_pos);
    assert!(b_pos < c_pos);
}

#[test]
fn register_then_unregister_restores_registry() {
    let mut registry = ServiceRegistry::new();
    register(&mut registry, descriptor("base", "1.2.3", &[])).unwrap();
    let before: Vec<String> = registry.list_services().into_iter().map(|s| s.id).collect();
    register(&mut registry, descriptor("extra", "0.1.0", &[("base", "^1", false)])).unwrap();
    let extra = id_of(&registry, "extra");
    registry.unregister_service(&extra, "done".to_string()).unwrap();
    let after: Vec<String> = registry.list_services().into_iter().map(|s| s.id).collect();
    assert_eq!(before, after);
}

#[test]
fn invalid_version_is_refused() {
    let mut registry = ServiceRegistry::new();
    let err = register(&mut registry, descriptor("x", "not-a-version", &[])).unwrap_err();
    assert!(matches!(err, RegistryError::InvalidParameters(_)));
    let err = register(&mut registry, descriptor("y", "1.0.0", &[("x", "!!", true)])).unwrap_err();
    assert!(matches!(err, RegistryError::InvalidParameters(_)));
    assert!(registry.list_services().is_empty());
}

#[test]
fn unregistering_unknown_service_fails() {
    let mut registry: ServiceRegistry<String> = ServiceRegistry::new();
    let err = registry.unregister_service("nope", "r".to_string()).unwrap_err();
    assert_eq!(err.to_string(), "Invalid parameters: Service nope not found");
}

#[test]
fn dependency_on_down_service_is_refused() {
    let mut registry = ServiceRegistry::new();
    register(&mut registry, descriptor("base", "1.0.0", &[])).unwrap();
    let base = id_of(&registry, "base");
    registry.update_service_status(&base, ServiceStatus::Down).unwrap();
    let err = register(&mut registry, descriptor("user", "1.0.0", &[("base", "*", false)])).unwrap_err();
    assert_eq!(
        err.to_string(),
        "Configuration error: Service user depends on base which is not available (status: Down)"
    );
    assert!(register(&mut registry, descriptor("opt", "1.0.0", &[("base", "*", true)])).is_ok());
    let graph = registry.get_dependency_graph();
    assert_eq!(graph.len(), 2);
    assert_eq!(graph[1].1, vec![base.clone()]);
    assert_eq!(registry.get_service(&base).map(|s| s.as_str()), Some("base"));
}

#[test]
fn managed_registry_lists_tools_and_routes_calls() {
    let mut managed: ManagedServiceRegistry<String> = ManagedServiceRegistry::new();
    assert!(managed.get_all_tools().is_empty());
    register(&mut managed.registry, descriptor("alpha", "1.0.0", &[])).unwrap();
    register(&mut managed.registry, descriptor("beta", "2.0.0", &[])).unwrap();
    assert_eq!(managed.get_all_tools(), vec!["test_alpha".to_string(), "test_beta".to_string()]);
    assert_eq!(managed.handle_tool_call("test_beta").ok().map(|s| s.as_str()), Some("beta"));
    match managed.handle_tool_call("nope") {
        Err(RegistryError::InvalidParameters(m)) => assert_eq!(m, "Unknown tool: nope"),
        _ => panic!("expected an unknown tool"),
    }
}

#[test]
fn each_service_routes_its_own_tools() {
    assert_eq!(handle_tool_call(ServiceKind::Scan, "execute_scan").ok(), Some(ServiceTool::ExecuteScan));
    assert_eq!(handle_tool_call(ServiceKind::Analysis, "query_call_chain").ok(), Some(ServiceTool::QueryCallChain));
    assert_eq!(
        handle_tool_call(ServiceKind::Dependency, "convert_graph_to_image").ok(),
        Some(ServiceTool::ConvertGraphToImage)
    );
    match handle_tool_call(ServiceKind::Review, "execute_scan") {
        Err(RegistryError::InvalidParameters(m)) => assert_eq!(m, "Unknown tool: execute_scan"),
        _ => panic!("expected an unknown tool"),
    }
}
