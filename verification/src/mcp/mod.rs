pub mod client;
pub mod dependency_graph;
pub mod error;
pub mod manager;
pub mod registry;
pub mod rmcp_compat;
pub mod server;
pub mod services;
pub mod types;
pub mod utils;

use crate::mcp::rmcp_compat::ServiceError;
use crate::text::{same_text, texts};
use std::collections::HashMap;
use vstd::prelude::*;

verus! {

broadcast use vstd::seq_lib::lemma_seq_contains_after_push;

/// Configuration of the MCP services.
pub struct GitAiMcpConfig {
    /// Names of the services to run.
    pub enabled_services: Vec<String>,
    /// Port of each service, by name.
    pub service_ports: HashMap<String, u16>,
    /// Transport settings.
    pub transport_config: TransportConfig,
    /// Discovery settings.
    pub discovery_config: DiscoveryConfig,
}

/// Transport settings.
pub struct TransportConfig {
    /// Transport used by default.
    pub default_transport: String,
    /// Standard input and output settings.
    pub stdio_config: StdioConfig,
    /// Server-sent events settings, if used.
    pub sse_config: Option<SseConfig>,
}

/// Standard input and output settings.
pub struct StdioConfig {
    /// Whether it is enabled.
    pub enabled: bool,
    /// Buffer size, in bytes.
    pub buffer_size: usize,
}

/// Server-sent events settings.
pub struct SseConfig {
    /// Whether it is enabled.
    pub enabled: bool,
    /// Address to listen on.
    pub bind_address: String,
    /// Port to listen on.
    pub port: u16,
}

/// Service discovery settings.
pub struct DiscoveryConfig {
    /// Whether discovery is enabled.
    pub enabled: bool,
    /// Registration time-out, in seconds.
    pub registration_timeout: u64,
    /// Interval between health checks, in seconds.
    pub health_check_interval: u64,
}

/// The services enabled by default.
pub open spec fn default_enabled_services() -> Seq<Seq<char>> {
    seq![
        "gitai-treesitter-service"@,
        "gitai-ai-analysis-service"@,
        "gitai-devops-service"@,
        "gitai-rule-management-service"@,
        "gitai-scanner-service"@,
    ]
}

impl Default for GitAiMcpConfig {
    /// Five services enabled, no ports, standard input and output with an 8 KiB
    /// buffer, no server-sent events, discovery on with a 30 s time-out and checks
    /// every 60 s.
    fn default() -> (r: Self)
        ensures
            r.enabled_services@.map_values(|s: String| s@) == default_enabled_services(),
            r.service_ports@.len() == 0,
            r.transport_config.default_transport@ == "stdio"@,
            r.transport_config.stdio_config.enabled,
            r.transport_config.stdio_config.buffer_size == 8192,
            r.transport_config.sse_config is None,
            r.discovery_config.enabled,
            r.discovery_config.registration_timeout == 30,
            r.discovery_config.health_check_interval == 60,
    {
        let mut enabled: Vec<String> = Vec::new();
        enabled.push(String::from_str("gitai-treesitter-service"));
        enabled.push(String::from_str("gitai-ai-analysis-service"));
        enabled.push(String::from_str("gitai-devops-service"));
        enabled.push(String::from_str("gitai-rule-management-service"));
        enabled.push(String::from_str("gitai-scanner-service"));
        assert(enabled@.map_values(|s: String| s@) =~= default_enabled_services());
        GitAiMcpConfig {
            enabled_services: enabled,
            service_ports: HashMap::new(),
            transport_config: TransportConfig {
                default_transport: String::from_str("stdio"),
                stdio_config: StdioConfig { enabled: true, buffer_size: 8192 },
                sse_config: None,
            },
            discovery_config: DiscoveryConfig {
                enabled: true,
                registration_timeout: 30,
                health_check_interval: 60,
            },
        }
    }
}

/// An MCP service that can be started, stopped and checked.
pub trait McpService {
    /// The service's name.
    fn name(&self) -> &str;

    /// The service's version.
    fn version(&self) -> &str;

    /// What the service does.
    fn description(&self) -> &str;

    /// Starts the service.
    fn start_sync(&mut self) -> Result<(), ServiceError>;

    /// Stops the service.
    fn stop_sync(&mut self) -> Result<(), ServiceError>;

    /// Whether the service is healthy.
    fn health_check_sync(&self) -> Result<bool, ServiceError>;

    /// A description of the service's handler.
    fn get_handler_info(&self) -> String;
}

/// The position of `name` among `names`, if it is there.
pub(crate) fn position_of_name(names: &Vec<String>, name: &str) -> (r: Option<usize>)
    ensures
        match r {
            Some(i) => i < names.len() && names@[i as int]@ == name@,
            None => !texts(names@).contains(name@),
        },
{
    let mut i: usize = 0;
    while i < names.len()
        invariant
            i <= names.len(),
            forall|j: int| 0 <= j < i ==> names@[j]@ != name@,
        decreases names.len() - i,
    {
        if same_text(names[i].as_str(), name) {
            return Some(i);
        }
        i = i + 1;
    }
    assert forall|j: int| 0 <= j < texts(names@).len() implies texts(names@)[j] != name@ by {
        assert(texts(names@)[j] == names@[j]@);
    }
    None
}

/// `a` and `b` agree at every position after `i`.
pub open spec fn same_after<S>(a: Seq<S>, b: Seq<S>, i: int) -> bool {
    forall|j: int| i < j < b.len() ==> #[trigger] a[j] == b[j]
}

/// Keeps the MCP services that run: those of the enabled services that were
/// registered and started, with the names the registry knows.
pub struct GitAiMcpManager<S> {
    registry: Vec<String>,
    names: Vec<String>,
    services: Vec<S>,
    config: GitAiMcpConfig,
}

impl<S: McpService> GitAiMcpManager<S> {
    /// The names of the services the configuration enables.
    pub closed spec fn enabled(&self) -> Seq<Seq<char>> {
        texts(self.config.enabled_services@)
    }

    /// The names the registry holds.
    pub closed spec fn registered(&self) -> Set<Seq<char>> {
        Set::new(|n: Seq<char>| texts(self.registry@).contains(n))
    }

    /// The names of the running services, in the order they came.
    pub closed spec fn active_names(&self) -> Seq<Seq<char>> {
        texts(self.names@)
    }

    /// The running services, in the order of their names.
    pub closed spec fn active_services(&self) -> Seq<S> {
        self.services@
    }

    /// Each running service has one name, is enabled and is registered.
    pub closed spec fn wf(&self) -> bool {
        &&& self.names.len() == self.services.len()
        &&& self.active_names().no_duplicates()
        &&& forall|i: int|
            0 <= i < self.names.len() ==> self.enabled().contains(#[trigger] self.active_names()[i])
                && self.registered().contains(self.active_names()[i])
    }

    /// The running services and the registry are those of `other`.
    pub open spec fn same_services(self, other: Self) -> bool {
        &&& self.enabled() == other.enabled()
        &&& self.registered() == other.registered()
        &&& self.active_names() == other.active_names()
        &&& self.active_services() == other.active_services()
    }

    /// What registering a service named `name` does, `ok` telling whether it
    /// succeeded: a service that is not enabled is passed over with success;
    /// an enabled one is registered, and, once it has started, runs under its
    /// name, in place of one that ran under it before.
    pub open spec fn registration_step(self, next: Self, name: Seq<char>, ok: bool) -> bool {
        &&& next.enabled() == self.enabled()
        &&& if !self.enabled().contains(name) {
            ok && next.same_services(self)
        } else {
            &&& next.registered() == self.registered().insert(name)
            &&& if ok {
                &&& next.active_names() == (if self.active_names().contains(name) {
                    self.active_names()
                } else {
                    self.active_names().push(name)
                })
                &&& next.active_services().len() == next.active_names().len()
                &&& forall|j: int|
                    0 <= j < self.active_names().len() && self.active_names()[j] != name
                        ==> #[trigger] next.active_services()[j] == self.active_services()[j]
            } else {
                &&& next.active_names() == self.active_names()
                &&& next.active_services() == self.active_services()
            }
        }
    }

    /// What unregistering `name` does, `ok` telling whether it succeeded: a
    /// name that does not run is passed over with success; a running service
    /// leaves the running ones and is stopped, and, once stopped, leaves the
    /// registry.
    pub open spec fn unregistration_step(self, next: Self, name: Seq<char>, ok: bool) -> bool {
        &&& next.enabled() == self.enabled()
        &&& if !self.active_names().contains(name) {
            ok && next.same_services(self)
        } else {
            &&& forall|i: int|
                0 <= i < self.active_names().len() && #[trigger] self.active_names()[i] == name
                    ==> next.active_names() == self.active_names().remove(i)
                    && next.active_services() == self.active_services().remove(i)
            &&& next.registered() == (if ok {
                self.registered().remove(name)
            } else {
                self.registered()
            })
        }
    }

    /// A manager for `config` with nothing registered or running.
    pub fn new(config: GitAiMcpConfig) -> (r: Self)
        ensures
            r.wf(),
            r.enabled() == texts(config.enabled_services@),
            r.registered() == Set::<Seq<char>>::empty(),
            r.active_names() == Seq::<Seq<char>>::empty(),
            r.active_services() == Seq::<S>::empty(),
    {
        let r = GitAiMcpManager { registry: Vec::new(), names: Vec::new(), services: Vec::new(), config };
        assert(r.registered() =~= Set::<Seq<char>>::empty());
        assert(r.active_names() =~= Seq::<Seq<char>>::empty());
        r
    }

    fn record_name(&mut self, name: &String)
        ensures
            final(self).registered() == old(self).registered().insert(name@),
            final(self).names == old(self).names,
            final(self).services == old(self).services,
            final(self).config == old(self).config,
    {
        match position_of_name(&self.registry, name.as_str()) {
            Some(i) => {
                assert(texts(self.registry@)[i as int] == name@);
            },
            None => {
                let ghost before = texts(self.registry@);
                self.registry.push(name.clone());
                assert(texts(self.registry@) =~= before.push(name@));
            },
        }
        assert(self.registered() =~= old(self).registered().insert(name@));
    }

    fn forget_name(&mut self, name: &str)
        ensures
            final(self).registered() == old(self).registered().remove(name@),
            final(self).names == old(self).names,
            final(self).services == old(self).services,
            final(self).config == old(self).config,
    {
        let mut kept: Vec<String> = Vec::new();
        let mut i: usize = 0;
        while i < self.registry.len()
            invariant
                i <= self.registry.len(),
                forall|n: Seq<char>|
                    texts(kept@).contains(n) <==> (texts(self.registry@.subrange(0, i as int)).contains(n)
                        && n != name@),
            decreases self.registry.len() - i,
        {
            let ghost prefix = texts(self.registry@.subrange(0, i as int));
            let ghost before = texts(kept@);
            if !same_text(self.registry[i].as_str(), name) {
                kept.push(self.registry[i].clone());
                assert(texts(kept@) =~= before.push(self.registry@[i as int]@));
            }
            assert(texts(self.registry@.subrange(0, i + 1)) =~= prefix.push(self.registry@[i as int]@));
            i = i + 1;
        }
        assert(self.registry@.subrange(0, self.registry.len() as int) =~= self.registry@);
        self.registry = kept;
        assert(self.registered() =~= old(self).registered().remove(name@));
    }

    /// Registers `service` under `name`: passed over with success where the
    /// configuration does not enable `name`; otherwise the name is registered,
    /// the service started, and, where it started, run under `name`.
    pub fn register_named(&mut self, name: String, service: S) -> (r: Result<(), ServiceError>)
        requires
            old(self).wf(),
        ensures
            final(self).wf(),
            old(self).registration_step(*final(self), name@, r is Ok),
    {
        match position_of_name(&self.config.enabled_services, name.as_str()) {
            None => {
                return Ok(());
            },
            Some(e) => {
                assert(self.enabled()[e as int] == name@);
            },
        }
        self.record_name(&name);
        assert(self.wf());
        let mut service = service;
        match service.start_sync() {
            Ok(()) => {},
            Err(e) => {
                return Err(e);
            },
        }
        let ghost before = *self;
        match position_of_name(&self.names, name.as_str()) {
            Some(i) => {
                assert(before.active_names()[i as int] == name@);
                self.services.set(i, service);
                assert(self.active_names() =~= before.active_names());
            },
            None => {
                self.names.push(name);
                self.services.push(service);
                assert(self.active_names() =~= before.active_names().push(name@));
                assert forall|a: int, b: int|
                    0 <= a < self.names.len() && 0 <= b < self.names.len() && a != b implies self.active_names()[a]
                    != self.active_names()[b] by {
                    if a < before.names.len() && b < before.names.len() {
                        assert(before.active_names().no_duplicates());
                    }
                }
                assert forall|i: int| 0 <= i < self.names.len() implies self.enabled().contains(
                    #[trigger] self.active_names()[i],
                ) && self.registered().contains(self.active_names()[i]) by {
                    if i < before.names.len() {
                        assert(self.active_names()[i] == before.active_names()[i]);
                    }
                }
            },
        }
        Ok(())
    }

    /// Registers `service` under the name it reports, as `register_named` does.
    pub fn register_service(&mut self, service: S) -> (r: Result<(), ServiceError>)
        requires
            old(self).wf(),
        ensures
            final(self).wf(),
            exists|name: Seq<char>| #[trigger] old(self).registration_step(*final(self), name, r is Ok),
    {
        let ghost before = *self;
        let name = String::from_str(service.name());
        let r = self.register_named(name, service);
        assert(before.registration_step(*self, name@, r is Ok));
        r
    }

    /// Takes the service named `name` out of the running ones and stops it;
    /// once it has stopped, the name leaves the registry. A name that does
    /// not run is passed over with success.
    pub fn unregister_service(&mut self, name: &str) -> (r: Result<(), ServiceError>)
        requires
            old(self).wf(),
        ensures
            final(self).wf(),
            old(self).unregistration_step(*final(self), name@, r is Ok),
    {
        let ghost before = *self;
        match position_of_name(&self.names, name) {
            None => Ok(()),
            Some(i) => {
                assert(before.active_names()[i as int] == name@);
                let _gone = self.names.remove(i);
                let mut service = self.services.remove(i);
                assert(self.active_names() =~= before.active_names().remove(i as int));
                assert forall|k: int|
                    0 <= k < before.active_names().len() && #[trigger] before.active_names()[k] == name@
                        implies k == i by {}
                assert forall|k: int| 0 <= k < self.names.len() implies self.active_names()[k]
                    != name@ by {
                    if k < i {
                        assert(self.active_names()[k] == before.active_names()[k]);
                    } else {
                        assert(self.active_names()[k] == before.active_names()[k + 1]);
                    }
                }
                match service.stop_sync() {
                    Ok(()) => {},
                    Err(e) => {
                        return Err(e);
                    },
                }
                self.forget_name(name);
                Ok(())
            },
        }
    }

    /// The running service named `name`, if there is one.
    pub fn get_service(&self, name: &str) -> (r: Option<&S>)
        requires
            self.wf(),
        ensures
            match r {
                Some(s) => exists|i: int|
                    0 <= i < self.active_names().len() && #[trigger] self.active_names()[i] == name@ && *s
                        == self.active_services()[i],
                None => !self.active_names().contains(name@),
            },
    {
        match position_of_name(&self.names, name) {
            Some(i) => {
                assert(self.active_names()[i as int] == name@);
                Some(&self.services[i])
            },
            None => None,
        }
    }

    /// The names of the running services.
    pub fn list_active_services(&self) -> (r: Vec<String>)
        requires
            self.wf(),
        ensures
            texts(r@) == self.active_names(),
    {
        let mut out: Vec<String> = Vec::new();
        let mut i: usize = 0;
        while i < self.names.len()
            invariant
                i <= self.names.len(),
                texts(out@) == texts(self.names@.subrange(0, i as int)),
            decreases self.names.len() - i,
        {
            let ghost before = texts(out@);
            out.push(self.names[i].clone());
            assert(texts(out@) =~= before.push(self.names@[i as int]@));
            assert(texts(self.names@.subrange(0, i + 1)) =~= texts(self.names@.subrange(0, i as int)).push(
                self.names@[i as int]@,
            ));
            i = i + 1;
        }
        assert(self.names@.subrange(0, self.names.len() as int) =~= self.names@);
        out
    }

    /// Starts again, in the order the configuration gives, each enabled
    /// service that runs, and stops at the first that fails. The names, the
    /// registry and the number of running services stay as they were.
    pub fn start_all_services(&mut self) -> (r: Result<(), ServiceError>)
        requires
            old(self).wf(),
        ensures
            final(self).wf(),
            final(self).enabled() == old(self).enabled(),
            final(self).registered() == old(self).registered(),
            final(self).active_names() == old(self).active_names(),
            final(self).active_services().len() == old(self).active_services().len(),
            old(self).active_names().len() == 0 ==> r is Ok && final(self).active_services() == old(
                self,
            ).active_services(),
    {
        let n = self.config.enabled_services.len();
        let mut k: usize = 0;
        while k < n
            invariant
                k <= n,
                n == self.config.enabled_services.len(),
                self.wf(),
                self.config == old(self).config,
                self.registry == old(self).registry,
                self.names == old(self).names,
                self.services.len() == old(self).services.len(),
            decreases n - k,
        {
            let found = position_of_name(&self.names, self.config.enabled_services[k].as_str());
            match found {
                Some(i) => {
                    let mut service = self.services.remove(i);
                    let started = service.start_sync();
                    self.services.insert(i, service);
                    match started {
                        Ok(()) => {},
                        Err(e) => {
                            return Err(e);
                        },
                    }
                },
                None => {},
            }
            k = k + 1;
        }
        Ok(())
    }

    /// Stops each running service, in order, and stops at the first that
    /// fails. The names and the registry stay as they were.
    pub fn stop_all_services(&mut self) -> (r: Result<(), ServiceError>)
        requires
            old(self).wf(),
        ensures
            final(self).wf(),
            final(self).enabled() == old(self).enabled(),
            final(self).registered() == old(self).registered(),
            final(self).active_names() == old(self).active_names(),
            final(self).active_services().len() == old(self).active_services().len(),
            old(self).active_names().len() == 0 ==> r is Ok && final(self).active_services() == old(
                self,
            ).active_services(),
            r is Err ==> exists|i: int|
                0 <= i < old(self).active_services().len() && #[trigger] same_after(
                    final(self).active_services(),
                    old(self).active_services(),
                    i,
                ),
    {
        let mut i: usize = 0;
        while i < self.services.len()
            invariant
                i <= self.services.len(),
                self.wf(),
                self.config == old(self).config,
                self.registry == old(self).registry,
                self.names == old(self).names,
                self.services.len() == old(self).services.len(),
                forall|j: int| i <= j < self.services.len() ==> #[trigger] self.services@[j] == old(self).services@[j],
            decreases self.services.len() - i,
        {
            let ghost before = self.services@;
            let mut service = self.services.remove(i);
            let stopped = service.stop_sync();
            self.services.insert(i, service);
            assert(self.services@ =~= before.update(i as int, service));
            match stopped {
                Ok(()) => {},
                Err(e) => {
                    assert(same_after(self.active_services(), old(self).active_services(), i as int));
                    return Err(e);
                },
            }
            i = i + 1;
        }
        Ok(())
    }

    /// Each running service's name with whether it reports itself healthy; a
    /// failed check counts as unhealthy.
    pub fn health_check_all(&self) -> (r: Vec<(String, bool)>)
        requires
            self.wf(),
        ensures
            r.len() == self.active_names().len(),
            forall|i: int| 0 <= i < r.len() ==> (#[trigger] r@[i]).0@ == self.active_names()[i],
    {
        let mut out: Vec<(String, bool)> = Vec::new();
        let mut i: usize = 0;
        while i < self.services.len()
            invariant
                i <= self.services.len(),
                self.wf(),
                out.len() == i,
                forall|j: int| 0 <= j < i ==> (#[trigger] out@[j]).0@ == self.active_names()[j],
            decreases self.services.len() - i,
        {
            let healthy = match self.services[i].health_check_sync() {
                Ok(b) => b,
                Err(_) => false,
            };
            out.push((self.names[i].clone(), healthy));
            i = i + 1;
        }
        out
    }

    /// Every running service is enabled by the configuration and registered.
    pub proof fn lemma_running_services_enabled(&self)
        requires
            self.wf(),
        ensures
            forall|i: int|
                0 <= i < self.active_names().len() ==> self.enabled().contains(#[trigger] self.active_names()[i])
                    && self.registered().contains(self.active_names()[i]),
    {
    }

    /// Registering an enabled service that does not run, then unregistering
    /// it, both with success, leaves the running services as they were and
    /// the name out of the registry.
    pub proof fn lemma_register_then_unregister(a: Self, b: Self, c: Self, name: Seq<char>)
        requires
            a.wf(),
            a.enabled().contains(name),
            !a.active_names().contains(name),
            a.registration_step(b, name, true),
            b.unregistration_step(c, name, true),
        ensures
            c.active_names() == a.active_names(),
            c.active_services() == a.active_services(),
            c.registered() == a.registered().remove(name),
            !a.registered().contains(name) ==> c.registered() == a.registered(),
    {
        let n = a.active_names().len() as int;
        assert(b.active_names()[n] == name);
        assert(b.active_names().contains(name));
        assert(b.active_names().remove(n) =~= a.active_names());
        assert(b.active_services().remove(n) =~= a.active_services()) by {
            assert forall|j: int| 0 <= j < n implies b.active_services()[j] == a.active_services()[j] by {
                assert(a.active_names()[j] != name);
            }
        }
        assert(a.registered().insert(name).remove(name) =~= a.registered().remove(name));
        if !a.registered().contains(name) {
            assert(a.registered().remove(name) =~= a.registered());
        }
    }
}

/// Tells whether `transport_type` is a transport the services can use: only
/// standard input and output is.
pub fn create_mcp_service(transport_type: &str) -> (r: Result<(), ServiceError>)
    ensures
        r is Ok <==> transport_type@ == "stdio"@,
        r matches Err(ServiceError::InvalidParams(m)) ==> m@ == "不支持的传输协议: "@ + transport_type@,
        r is Err ==> r matches Err(ServiceError::InvalidParams(_)),
{
    if same_text(transport_type, "stdio") {
        Ok(())
    } else {
        let mut m = String::from_str("不支持的传输协议: ");
        m.append(transport_type);
        Err(ServiceError::invalid_params(m))
    }
}

/// A manager for `config`, or for the default configuration where none is
/// given, with nothing registered or running.
pub fn init_gitai_mcp_manager<S: McpService>(config: Option<GitAiMcpConfig>) -> (r: Result<
    GitAiMcpManager<S>,
    ServiceError,
>)
    ensures
        r matches Ok(m) && m.wf() && m.registered() == Set::<Seq<char>>::empty() && m.active_names()
            == Seq::<Seq<char>>::empty() && m.enabled() == (match config {
            Some(c) => texts(c.enabled_services@),
            None => default_enabled_services(),
        }),
{
    let chosen = match config {
        Some(c) => c,
        None => {
            let d = GitAiMcpConfig::default();
            assert(texts(d.enabled_services@) =~= default_enabled_services());
            d
        },
    };
    Ok(GitAiMcpManager::new(chosen))
}

} // verus!
