use crate::mcp::dependency_graph::{
    find_dependency_cycle, has_dependency_cycle, ids_unique, is_cycle_witness, is_dependency_cycle, is_startup_order,
    lemma_remove_acyclic, lemma_same_graph, names_unique, position_by_name,
    startup_order_indices,
};
use crate::text::{format_hex, hex_text, push_char};
use vstd::prelude::*;

verus! {

/// Lifecycle state of a registered service.
#[derive(Debug, Clone, Copy, PartialEq, Eq, Structural)]
pub enum ServiceStatus {
    /// Running normally.
    Up,
    /// Stopped.
    Down,
    /// Running with reduced performance.
    Degraded,
    /// Being started.
    Starting,
    /// Being stopped.
    Stopping,
}

/// A dependency of one service on another, by name and version requirement.
#[derive(Debug, Clone)]
pub struct ServiceDependency {
    /// Name of the service depended on.
    pub service_name: String,
    /// Semantic-version requirement, in semver's requirement syntax (such as `>=1.0.0`).
    pub version_req: String,
    /// Whether the service can run without it.
    pub optional: bool,
}

/// Mathematical value of a [`ServiceDependency`].
pub ghost struct DependencyView {
    pub service_name: Seq<char>,
    pub version_req: Seq<char>,
    pub optional: bool,
}

impl View for ServiceDependency {
    type V = DependencyView;

    open spec fn view(&self) -> DependencyView {
        DependencyView {
            service_name: self.service_name@,
            version_req: self.version_req@,
            optional: self.optional,
        }
    }
}


/// The texts of a sequence of strings.
pub open spec fn string_views(v: Seq<String>) -> Seq<Seq<char>> {
    v.map_values(|t: String| t@)
}

/// The views of a sequence of dependencies.
pub open spec fn dependency_views(v: Seq<ServiceDependency>) -> Seq<DependencyView> {
    v.map_values(|d: ServiceDependency| d@)
}

/// Registration record of a service.
#[derive(Debug, Clone)]
pub struct ServiceMetadata {
    /// Unique identifier.
    pub id: String,
    /// Service name, unique within a registry.
    pub name: String,
    /// Semantic version, in semver's version syntax (such as `1.2.3`).
    pub version: String,
    /// Human-readable description.
    pub description: String,
    /// Names of the tools the service offers.
    pub tools: Vec<String>,
    /// Services this one depends on.
    pub dependencies: Vec<ServiceDependency>,
    /// Current lifecycle state.
    pub status: ServiceStatus,
    /// Registration time, in milliseconds since the Unix epoch.
    pub registered_at: i64,
    /// Time of the last status change, in milliseconds since the Unix epoch.
    pub last_health_check: Option<i64>,
    /// Service configuration, as JSON text.
    pub config: String,
}

/// Mathematical value of a [`ServiceMetadata`].
pub ghost struct MetadataView {
    pub id: Seq<char>,
    pub name: Seq<char>,
    pub version: Seq<char>,
    pub description: Seq<char>,
    pub tools: Seq<Seq<char>>,
    pub dependencies: Seq<DependencyView>,
    pub status: ServiceStatus,
    pub registered_at: i64,
    pub last_health_check: Option<i64>,
    pub config: Seq<char>,
}

impl View for ServiceMetadata {
    type V = MetadataView;

    open spec fn view(&self) -> MetadataView {
        MetadataView {
            id: self.id@,
            name: self.name@,
            version: self.version@,
            description: self.description@,
            tools: string_views(self.tools@),
            dependencies: dependency_views(self.dependencies@),
            status: self.status,
            registered_at: self.registered_at,
            last_health_check: self.last_health_check,
            config: self.config@,
        }
    }
}

/// The views of a sequence of records.
pub open spec fn records_view(v: Seq<ServiceMetadata>) -> Seq<MetadataView> {
    v.map_values(|m: ServiceMetadata| m@)
}

#[derive(Debug, Clone)]
pub enum RegistryError {
    /// A request named something that does not exist, or was malformed.
    InvalidParameters(String),
    /// The request conflicts with the registered services.
    ConfigurationError(String),
}

/// Mathematical value of a [`RegistryError`].
pub ghost enum RegistryErrorView {
    InvalidParameters(Seq<char>),
    ConfigurationError(Seq<char>),
}

impl View for RegistryError {
    type V = RegistryErrorView;

    open spec fn view(&self) -> RegistryErrorView {
        match self {
            RegistryError::InvalidParameters(m) => RegistryErrorView::InvalidParameters(m@),
            RegistryError::ConfigurationError(m) => RegistryErrorView::ConfigurationError(m@),
        }
    }
}

/// The text of an error: its kind, a colon and its message.
pub open spec fn registry_error_text(e: RegistryErrorView) -> Seq<char> {
    match e {
        RegistryErrorView::InvalidParameters(m) => "Invalid parameters: "@ + m,
        RegistryErrorView::ConfigurationError(m) => "Configuration error: "@ + m,
    }
}

impl RegistryError {
    /// The error's text, as it is displayed.
    pub fn to_string(&self) -> (r: String)
        ensures
            r@ == registry_error_text(self@),
    {
        match self {
            RegistryError::InvalidParameters(m) => {
                let mut out = String::from_str("Invalid parameters: ");
                out.append(m.as_str());
                out
            },
            RegistryError::ConfigurationError(m) => {
                let mut out = String::from_str("Configuration error: ");
                out.append(m.as_str());
                out
            },
        }
    }
}

/// Whether `text` is a semantic version (semver's `Version::parse` accepts it).
pub uninterp spec fn semver_version_parses(text: Seq<char>) -> bool;

/// Whether `text` is a version requirement (semver's `VersionReq::parse` accepts it).
pub uninterp spec fn semver_requirement_parses(text: Seq<char>) -> bool;

/// Whether the version written `version` satisfies the requirement written `req`
/// (semver's `VersionReq::matches`).
pub uninterp spec fn semver_requirement_matches(req: Seq<char>, version: Seq<char>) -> bool;

/// Calls `semver::Version::parse` and reports whether it succeeded.
#[verifier::external_body]
fn version_parses(text: &str) -> (r: bool)
    ensures
        r == semver_version_parses(text@),
{
    semver::Version::parse(text).is_ok()
}

/// Calls `semver::VersionReq::parse` and reports whether it succeeded.
#[verifier::external_body]
fn requirement_parses(text: &str) -> (r: bool)
    ensures
        r == semver_requirement_parses(text@),
{
    semver::VersionReq::parse(text).is_ok()
}

/// Calls `semver::VersionReq::matches` on the parsed requirement and version.
#[verifier::external_body]
fn requirement_matches(req: &str, version: &str) -> (r: bool)
    requires
        semver_requirement_parses(req@),
        semver_version_parses(version@),
    ensures
        r == semver_requirement_matches(req@, version@),
{
    match (semver::VersionReq::parse(req), semver::Version::parse(version)) {
        (Ok(req), Ok(version)) => req.matches(&version),
        _ => false,
    }
}

/// A fresh identifier for a service named `name` registered at `now`: the
/// name, `_`, and a hash of the name and the time in hexadecimal.
fn generate_service_id(name: &String, now: i64) -> (r: String)
    ensures
        exists|h: u64| r@ == name@.push('_') + hex_text(h as nat),
{
    let mut hasher = std::collections::hash_map::DefaultHasher::new();
    hash_str(&mut hasher, name.as_str());
    hash_i64(&mut hasher, now);
    let h = std::hash::Hasher::finish(&hasher);
    let mut id = copy_string(name);
    push_char(&mut id, '_');
    id.append(format_hex(h).as_str());
    assert(id@ == name@.push('_') + hex_text(h as nat));
    id
}

/// The current time, in milliseconds since the Unix epoch, from the system clock
/// (`SystemTime::now`; 0 if the clock is set before the epoch). Nothing is
/// stated of the reading.
#[verifier::external_body]
pub(crate) fn now_millis() -> i64 {
    std::time::SystemTime::now().duration_since(std::time::UNIX_EPOCH).unwrap_or_default().as_millis() as i64
}

/// `str`'s `Hash::hash`: feeds a string to the hasher. How it changes the
/// hasher's state std does not document; nothing is stated of it.
#[verifier::external_body]
fn hash_str(hasher: &mut std::collections::hash_map::DefaultHasher, s: &str) {
    std::hash::Hash::hash(s, hasher)
}

/// `i64`'s `Hash::hash`: feeds a number to the hasher. How it changes the
/// hasher's state std does not document; nothing is stated of it.
#[verifier::external_body]
fn hash_i64(hasher: &mut std::collections::hash_map::DefaultHasher, v: i64) {
    std::hash::Hash::hash(&v, hasher)
}

/// A copy of a string.
fn copy_string(s: &String) -> (r: String)
    ensures
        r@ == s@,
{
    s.clone()
}

/// A copy of a list of strings.
pub fn copy_strings(v: &Vec<String>) -> (r: Vec<String>)
    ensures
        r.len() == v.len(),
        forall|j: int| 0 <= j < v.len() ==> r@[j]@ == v@[j]@,
{
    let mut out: Vec<String> = Vec::new();
    let mut i: usize = 0;
    while i < v.len()
        invariant
            i <= v.len(),
            out.len() == i,
            forall|j: int| 0 <= j < i ==> out@[j]@ == v@[j]@,
        decreases v.len() - i,
    {
        out.push(copy_string(&v[i]));
        i = i + 1;
    }
    out
}

impl ServiceDependency {
    /// A copy of this dependency.
    pub fn duplicate(&self) -> (r: ServiceDependency)
        ensures
            r@ == self@,
    {
        ServiceDependency {
            service_name: copy_string(&self.service_name),
            version_req: copy_string(&self.version_req),
            optional: self.optional,
        }
    }
}

/// A copy of a list of dependencies.
fn copy_dependencies(v: &Vec<ServiceDependency>) -> (r: Vec<ServiceDependency>)
    ensures
        r.len() == v.len(),
        forall|j: int| 0 <= j < v.len() ==> r@[j]@ == v@[j]@,
{
    let mut out: Vec<ServiceDependency> = Vec::new();
    let mut i: usize = 0;
    while i < v.len()
        invariant
            i <= v.len(),
            out.len() == i,
            forall|j: int| 0 <= j < i ==> out@[j]@ == v@[j]@,
        decreases v.len() - i,
    {
        out.push(v[i].duplicate());
        i = i + 1;
    }
    out
}

impl ServiceMetadata {
    /// A copy of this record.
    pub fn duplicate(&self) -> (r: ServiceMetadata)
        ensures
            r@ == self@,
    {
        let r = ServiceMetadata {
            id: copy_string(&self.id),
            name: copy_string(&self.name),
            version: copy_string(&self.version),
            description: copy_string(&self.description),
            tools: copy_strings(&self.tools),
            dependencies: copy_dependencies(&self.dependencies),
            status: self.status,
            registered_at: self.registered_at,
            last_health_check: self.last_health_check,
            config: copy_string(&self.config),
        };
        assert(string_views(r.tools@) =~= string_views(self.tools@));
        assert(dependency_views(r.dependencies@) =~= dependency_views(self.dependencies@));
        r
    }
}


/// What a service declares of itself when it registers.
#[derive(Debug, Clone)]
pub struct ServiceDescriptor {
    /// Service name.
    pub name: String,
    /// Human-readable description.
    pub description: String,
    /// Semantic version, in semver's version syntax.
    pub version: String,
    /// Names of the tools it offers.
    pub tools: Vec<String>,
    /// Services it depends on.
    pub dependencies: Vec<ServiceDependency>,
}

/// Mathematical value of a [`ServiceDescriptor`].
pub ghost struct DescriptorView {
    pub name: Seq<char>,
    pub description: Seq<char>,
    pub version: Seq<char>,
    pub tools: Seq<Seq<char>>,
    pub dependencies: Seq<DependencyView>,
}

impl View for ServiceDescriptor {
    type V = DescriptorView;

    open spec fn view(&self) -> DescriptorView {
        DescriptorView {
            name: self.name@,
            description: self.description@,
            version: self.version@,
            tools: string_views(self.tools@),
            dependencies: dependency_views(self.dependencies@),
        }
    }
}

/// The version and every version requirement of `d` parse.
pub open spec fn descriptor_valid(d: DescriptorView) -> bool {
    &&& semver_version_parses(d.version)
    &&& forall|k: int| 0 <= k < d.dependencies.len() ==> semver_requirement_parses(#[trigger] d.dependencies[k].version_req)
}

/// The name of a status, as `{:?}` writes it.
pub open spec fn status_name(st: ServiceStatus) -> Seq<char> {
    match st {
        ServiceStatus::Up => "Up"@,
        ServiceStatus::Down => "Down"@,
        ServiceStatus::Degraded => "Degraded"@,
        ServiceStatus::Starting => "Starting"@,
        ServiceStatus::Stopping => "Stopping"@,
    }
}

/// Some service of `s` is named `name`.
pub open spec fn name_taken(s: Seq<MetadataView>, name: Seq<char>) -> bool {
    exists|i: int| 0 <= i < s.len() && s[i].name == name
}

/// Some service of `s` has identifier `id`.
pub open spec fn id_taken(s: Seq<MetadataView>, id: Seq<char>) -> bool {
    exists|i: int| 0 <= i < s.len() && s[i].id == id
}

/// Why dependency `d` of the service named `name` cannot be met by `s`, if it cannot.
pub open spec fn dependency_problem(s: Seq<MetadataView>, name: Seq<char>, d: DependencyView) -> Option<
    Seq<char>,
> {
    if name_taken(s, d.service_name) {
        let i = choose|i: int| 0 <= i < s.len() && s[i].name == d.service_name;
        if !semver_requirement_matches(d.version_req, s[i].version) {
            Some(
                "Service "@ + name + " depends on "@ + d.service_name + " version "@ + d.version_req
                    + ", but version "@ + s[i].version + " is registered"@,
            )
        } else if s[i].status != ServiceStatus::Up && !d.optional {
            Some(
                "Service "@ + name + " depends on "@ + d.service_name
                    + " which is not available (status: "@ + status_name(s[i].status) + ")"@,
            )
        } else {
            None
        }
    } else if !d.optional {
        Some("Service "@ + name + " depends on "@ + d.service_name + " which is not registered"@)
    } else {
        None
    }
}

/// The problem of the first dependency in `deps` that `s` cannot meet, if any.
pub open spec fn dependencies_problem(s: Seq<MetadataView>, name: Seq<char>, deps: Seq<DependencyView>) -> Option<
    Seq<char>,
>
    decreases deps.len(),
{
    if deps.len() == 0 {
        None
    } else {
        match dependencies_problem(s, name, deps.drop_last()) {
            Some(m) => Some(m),
            None => dependency_problem(s, name, deps.last()),
        }
    }
}

/// The record of a service that is being registered.
pub open spec fn new_record(d: DescriptorView, config: Seq<char>, id: Seq<char>, now: i64) -> MetadataView {
    MetadataView {
        id,
        name: d.name,
        version: d.version,
        description: d.description,
        tools: d.tools,
        dependencies: d.dependencies,
        status: ServiceStatus::Starting,
        registered_at: now,
        last_health_check: None,
        config,
    }
}

/// `m` with its status set to `status` at time `now`.
pub open spec fn with_status(m: MetadataView, status: ServiceStatus, now: i64) -> MetadataView {
    MetadataView { status, last_health_check: Some(now), ..m }
}

/// The parts of `parts`, with `sep` between each two.
pub open spec fn join_text(parts: Seq<Seq<char>>, sep: Seq<char>) -> Seq<char>
    decreases parts.len(),
{
    if parts.len() == 0 {
        Seq::empty()
    } else if parts.len() == 1 {
        parts[0]
    } else {
        join_text(parts.drop_last(), sep) + sep + parts.last()
    }
}

/// The identifiers of the services along walk `c`.
pub open spec fn walk_ids(s: Seq<MetadataView>, c: Seq<usize>) -> Seq<Seq<char>> {
    c.map_values(|i: usize| s[i as int].id)
}

/// Mathematical value of a [`ServiceEvent`].
pub ghost enum EventView {
    Registered { service_id: Seq<char>, metadata: MetadataView },
    Unregistered { service_id: Seq<char>, reason: Seq<char> },
    StatusChanged { service_id: Seq<char>, old_status: ServiceStatus, new_status: ServiceStatus },
    HealthCheckCompleted { service_id: Seq<char>, healthy: bool, response_time_ms: u64 },
}

/// Something that happened to a registered service, for the registry's listeners.
#[derive(Debug, Clone)]
pub enum ServiceEvent {
    /// A service was registered; `metadata` is its record as it was first written.
    Registered { service_id: String, metadata: ServiceMetadata },
    /// A service was removed.
    Unregistered { service_id: String, reason: String },
    /// A service's status changed.
    StatusChanged { service_id: String, old_status: ServiceStatus, new_status: ServiceStatus },
    /// A health check of a service completed.
    HealthCheckCompleted { service_id: String, healthy: bool, response_time_ms: u64 },
}

impl View for ServiceEvent {
    type V = EventView;

    open spec fn view(&self) -> EventView {
        match self {
            ServiceEvent::Registered { service_id, metadata } => EventView::Registered {
                service_id: service_id@,
                metadata: metadata@,
            },
            ServiceEvent::Unregistered { service_id, reason } => EventView::Unregistered {
                service_id: service_id@,
                reason: reason@,
            },
            ServiceEvent::StatusChanged { service_id, old_status, new_status } => EventView::StatusChanged {
                service_id: service_id@,
                old_status: *old_status,
                new_status: *new_status,
            },
            ServiceEvent::HealthCheckCompleted { service_id, healthy, response_time_ms } =>
                EventView::HealthCheckCompleted {
                service_id: service_id@,
                healthy: *healthy,
                response_time_ms: *response_time_ms,
            },
        }
    }
}

/// The views of a sequence of events.
pub open spec fn events_view(v: Seq<ServiceEvent>) -> Seq<EventView> {
    v.map_values(|e: ServiceEvent| e@)
}


impl ServiceStatus {
    /// The status's name, as `{:?}` writes it.
    pub fn name(&self) -> (r: String)
        ensures
            r@ == status_name(*self),
    {
        match self {
            ServiceStatus::Up => String::from_str("Up"),
            ServiceStatus::Down => String::from_str("Down"),
            ServiceStatus::Degraded => String::from_str("Degraded"),
            ServiceStatus::Starting => String::from_str("Starting"),
            ServiceStatus::Stopping => String::from_str("Stopping"),
        }
    }
}

/// Why `dep`, a dependency of the service named `name`, cannot be met by `services`.
fn dependency_problem_text(services: &Vec<ServiceMetadata>, name: &String, dep: &ServiceDependency) -> (r:
    Option<String>)
    requires
        names_unique(records_view(services@)),
        forall|i: int| 0 <= i < services.len() ==> semver_version_parses(#[trigger] services@[i].version@),
        semver_requirement_parses(dep.version_req@),
    ensures
        match r {
            Some(m) => dependency_problem(records_view(services@), name@, dep@) == Some(m@),
            None => dependency_problem(records_view(services@), name@, dep@) is None,
        },
{
    let ghost s = records_view(services@);
    match position_by_name(services, &dep.service_name) {
        Some(i) => {
            proof {
                assert(s[i as int].name == dep.service_name@);
                let c = choose|c: int| 0 <= c < s.len() && s[c].name == dep@.service_name;
                if c != i {
                    assert(s[c].name == s[i as int].name);
                }
            }
            let target = &services[i];
            if !requirement_matches(dep.version_req.as_str(), target.version.as_str()) {
                let mut m = String::from_str("Service ");
                m.append(name.as_str());
                m.append(" depends on ");
                m.append(dep.service_name.as_str());
                m.append(" version ");
                m.append(dep.version_req.as_str());
                m.append(", but version ");
                m.append(target.version.as_str());
                m.append(" is registered");
                return Some(m);
            }
            if target.status != ServiceStatus::Up && !dep.optional {
                let mut m = String::from_str("Service ");
                m.append(name.as_str());
                m.append(" depends on ");
                m.append(dep.service_name.as_str());
                m.append(" which is not available (status: ");
                m.append(target.status.name().as_str());
                m.append(")");
                return Some(m);
            }
            None
        },
        None => {
            if !dep.optional {
                let mut m = String::from_str("Service ");
                m.append(name.as_str());
                m.append(" depends on ");
                m.append(dep.service_name.as_str());
                m.append(" which is not registered");
                Some(m)
            } else {
                None
            }
        },
    }
}

/// Once a prefix of `deps` has a problem, so has the whole, the same.
proof fn lemma_problem_prefix(s: Seq<MetadataView>, name: Seq<char>, deps: Seq<DependencyView>, j: int)
    requires
        0 <= j <= deps.len(),
        dependencies_problem(s, name, deps.take(j)) is Some,
    ensures
        dependencies_problem(s, name, deps) == dependencies_problem(s, name, deps.take(j)),
    decreases deps.len(),
{
    if j == deps.len() {
        assert(deps.take(j) =~= deps);
    } else {
        let shorter = deps.drop_last();
        assert(shorter.take(j) =~= deps.take(j));
        lemma_problem_prefix(s, name, shorter, j);
    }
}

/// The problem of the first dependency in `deps` that `services` cannot meet, if any.
fn dependencies_problem_text(services: &Vec<ServiceMetadata>, name: &String, deps: &Vec<ServiceDependency>) -> (r:
    Option<String>)
    requires
        names_unique(records_view(services@)),
        forall|i: int| 0 <= i < services.len() ==> semver_version_parses(#[trigger] services@[i].version@),
        forall|k: int| 0 <= k < deps.len() ==> semver_requirement_parses(#[trigger] deps@[k].version_req@),
    ensures
        match r {
            Some(m) => dependencies_problem(
                records_view(services@),
                name@,
                dependency_views(deps@),
            ) == Some(m@),
            None => dependencies_problem(
                records_view(services@),
                name@,
                dependency_views(deps@),
            ) is None,
        },
{
    let ghost s = records_view(services@);
    let ghost dv = dependency_views(deps@);
    let mut k: usize = 0;
    assert(dv.take(0) =~= Seq::<DependencyView>::empty());
    while k < deps.len()
        invariant
            k <= deps.len(),
            s == records_view(services@),
            dv == dependency_views(deps@),
            names_unique(s),
            forall|i: int| 0 <= i < services.len() ==> semver_version_parses(#[trigger] services@[i].version@),
            forall|k: int| 0 <= k < deps.len() ==> semver_requirement_parses(#[trigger] deps@[k].version_req@),
            dependencies_problem(s, name@, dv.take(k as int)) is None,
        decreases deps.len() - k,
    {
        let found = dependency_problem_text(services, name, &deps[k]);
        proof {
            assert(dv.take(k + 1).drop_last() =~= dv.take(k as int));
            assert(dv.take(k + 1).last() == deps@[k as int]@);
        }
        if found.is_some() {
            proof {
                lemma_problem_prefix(s, name@, dv, k + 1);
            }
            return found;
        }
        k = k + 1;
    }
    assert(dv.take(k as int) =~= dv);
    None
}


/// Position of the service with identifier `id`, if any.
pub fn position_by_id(services: &Vec<ServiceMetadata>, id: &String) -> (r: Option<usize>)
    ensures
        match r {
            Some(i) => i < services.len() && services@[i as int].id@ == id@,
            None => forall|j: int| 0 <= j < services.len() ==> services@[j].id@ != id@,
        },
{
    let mut i: usize = 0;
    while i < services.len()
        invariant
            i <= services.len(),
            forall|j: int| 0 <= j < i ==> services@[j].id@ != id@,
        decreases services.len() - i,
    {
        if services[i].id == *id {
            return Some(i);
        }
        i = i + 1;
    }
    None
}

/// The texts of `parts`, with `sep` between each two.
pub fn join_strings(parts: &Vec<String>, sep: &str) -> (r: String)
    ensures
        r@ == join_text(string_views(parts@), sep@),
{
    let ghost pv = string_views(parts@);
    let mut out = String::new();
    let mut i: usize = 0;
    while i < parts.len()
        invariant
            i <= parts.len(),
            pv == string_views(parts@),
            out@ == join_text(pv.take(i as int), sep@),
        decreases parts.len() - i,
    {
        if i > 0 {
            out.append(sep);
        }
        out.append(parts[i].as_str());
        proof {
            assert(pv.take(i + 1).drop_last() =~= pv.take(i as int));
            if i == 0 {
                assert(out@ =~= join_text(pv.take(1), sep@));
            }
        }
        i = i + 1;
    }
    assert(pv.take(i as int) =~= pv);
    out
}

/// The identifiers along walk `c`, joined by arrows.
fn walk_text(services: &Vec<ServiceMetadata>, c: &Vec<usize>) -> (r: String)
    requires
        forall|p: int| 0 <= p < c.len() ==> (c@[p] as int) < services.len(),
    ensures
        r@ == join_text(walk_ids(records_view(services@), c@), " -> "@),
{
    let mut ids: Vec<String> = Vec::new();
    let mut p: usize = 0;
    while p < c.len()
        invariant
            p <= c.len(),
            forall|q: int| 0 <= q < c.len() ==> (c@[q] as int) < services.len(),
            ids.len() == p,
            forall|q: int| 0 <= q < p ==> ids@[q]@ == services@[c@[q] as int].id@,
        decreases c.len() - p,
    {
        ids.push(copy_string(&services[c[p]].id));
        p = p + 1;
    }
    assert(string_views(ids@) =~= walk_ids(records_view(services@), c@));
    join_strings(&ids, " -> ")
}


/// What registering a service with identifier `id` at time `now` into a registry
/// holding `s` comes to.
pub ghost enum RegistrationVerdict {
    /// The service is added.
    Accepted,
    /// The service is refused with this error.
    Refused(RegistryErrorView),
    /// The service is refused because adding it would close a dependency cycle.
    Cyclic,
}

/// The verdict on registering descriptor `d` as `id` at time `now` beside `s`.
pub open spec fn registration_verdict(
    s: Seq<MetadataView>,
    d: DescriptorView,
    config: Seq<char>,
    id: Seq<char>,
    now: i64,
) -> RegistrationVerdict {
    match dependencies_problem(s, d.name, d.dependencies) {
        Some(m) => RegistrationVerdict::Refused(RegistryErrorView::ConfigurationError(m)),
        None => if name_taken(s, d.name) {
            RegistrationVerdict::Refused(
                RegistryErrorView::ConfigurationError(
                    "Service '"@ + d.name + "' is already registered"@,
                ),
            )
        } else if id_taken(s, id) {
            RegistrationVerdict::Refused(
                RegistryErrorView::ConfigurationError(
                    "Service "@ + d.name + " is already registered"@,
                ),
            )
        } else if has_dependency_cycle(s.push(new_record(d, config, id, now))) {
            RegistrationVerdict::Cyclic
        } else {
            RegistrationVerdict::Accepted
        },
    }
}

/// The message of a registration refused for closing the cycle along walk `c`.
pub open spec fn cycle_message(name: Seq<char>, s: Seq<MetadataView>, c: Seq<usize>) -> Seq<char> {
    "Circular dependency detected when registering service "@ + name + ". Cycles: "@ + join_text(
        walk_ids(s, c),
        " -> "@,
    )
}

/// The services of `s` that `s[t]` may not be removed from under: those, other than
/// `s[t]`, with a non-optional dependency on its name, among the first `k`.
pub open spec fn dependents_among(s: Seq<MetadataView>, t: int, k: int) -> Seq<Seq<char>>
    decreases k,
{
    if k <= 0 {
        Seq::empty()
    } else {
        let before = dependents_among(s, t, k - 1);
        if k - 1 != t && requires_name(s[k - 1], s[t].name) {
            before.push(s[k - 1].name)
        } else {
            before
        }
    }
}

/// `m` declares a non-optional dependency on the service named `name`.
pub open spec fn requires_name(m: MetadataView, name: Seq<char>) -> bool {
    exists|k: int|
        0 <= k < m.dependencies.len() && #[trigger] m.dependencies[k].service_name == name
            && !m.dependencies[k].optional
}

/// The names of the services that require `s[t]`, in registry order.
pub open spec fn dependents(s: Seq<MetadataView>, t: int) -> Seq<Seq<char>> {
    dependents_among(s, t, s.len() as int)
}

/// Position of the record with identifier `id` in `s`, if any.
pub open spec fn index_of_id(s: Seq<MetadataView>, id: Seq<char>) -> Option<int> {
    if id_taken(s, id) {
        Some(choose|i: int| 0 <= i < s.len() && s[i].id == id)
    } else {
        None
    }
}

/// `m` offers a tool named `tool`.
pub open spec fn offers_tool(m: MetadataView, tool: Seq<char>) -> bool {
    exists|k: int| 0 <= k < m.tools.len() && #[trigger] m.tools[k] == tool
}

/// Position of the first dependency in `deps` whose version requirement does not parse.
pub open spec fn first_bad_requirement(deps: Seq<DependencyView>, k: int) -> bool {
    &&& 0 <= k < deps.len()
    &&& !semver_requirement_parses(deps[k].version_req)
    &&& forall|j: int| 0 <= j < k ==> semver_requirement_parses(#[trigger] deps[j].version_req)
}

/// Why descriptor `d` is malformed, if it is: its version, or else the first
/// dependency requirement that does not parse.
pub open spec fn descriptor_problem(d: DescriptorView) -> Option<Seq<char>> {
    if !semver_version_parses(d.version) {
        Some("Invalid version of service "@ + d.name + ": "@ + d.version)
    } else if exists|k: int| first_bad_requirement(d.dependencies, k) {
        let k = choose|k: int| first_bad_requirement(d.dependencies, k);
        Some(
            "Invalid version requirement of dependency "@ + d.dependencies[k].service_name
                + " of service "@ + d.name + ": "@ + d.dependencies[k].version_req,
        )
    } else {
        None
    }
}

/// The event of a status change from `old_status` to `new_status`, if they differ.
pub open spec fn status_change_events(id: Seq<char>, old_status: ServiceStatus, new_status: ServiceStatus) -> Seq<
    EventView,
> {
    if old_status != new_status {
        seq![EventView::StatusChanged { service_id: id, old_status, new_status }]
    } else {
        Seq::empty()
    }
}

/// The message of a request naming an identifier that no service has.
pub open spec fn not_found_message(id: Seq<char>) -> Seq<char> {
    "Service "@ + id + " not found"@
}

/// The records among the first `k` of `s` whose status is `Up`, in order.
pub open spec fn healthy_among(s: Seq<MetadataView>, k: int) -> Seq<MetadataView>
    decreases k,
{
    if k <= 0 {
        Seq::empty()
    } else if s[k - 1].status == ServiceStatus::Up {
        healthy_among(s, k - 1).push(s[k - 1])
    } else {
        healthy_among(s, k - 1)
    }
}

/// The identifiers of the registered services that `deps` name, in order; names
/// that no service has are skipped.
pub open spec fn resolved_ids(s: Seq<MetadataView>, deps: Seq<DependencyView>) -> Seq<Seq<char>>
    decreases deps.len(),
{
    if deps.len() == 0 {
        Seq::empty()
    } else {
        let before = resolved_ids(s, deps.drop_last());
        if name_taken(s, deps.last().service_name) {
            before.push(s[choose|i: int| 0 <= i < s.len() && s[i].name == deps.last().service_name].id)
        } else {
            before
        }
    }
}

/// Every non-optional dependency of a service of `s` names a service of `s`.
pub open spec fn required_registered(s: Seq<MetadataView>) -> bool {
    forall|i: int, k: int|
        0 <= i < s.len() && 0 <= k < s[i].dependencies.len() && !(#[trigger] s[i].dependencies[k]).optional
            ==> name_taken(s, s[i].dependencies[k].service_name)
}

/// When no dependency in `deps` has a problem, each non-optional one names a
/// service of `s`.
proof fn lemma_required_found(s: Seq<MetadataView>, name: Seq<char>, deps: Seq<DependencyView>)
    requires
        dependencies_problem(s, name, deps) is None,
    ensures
        forall|k: int|
            0 <= k < deps.len() && !(#[trigger] deps[k]).optional ==> name_taken(s, deps[k].service_name),
    decreases deps.len(),
{
    if deps.len() > 0 {
        let shorter = deps.drop_last();
        lemma_required_found(s, name, shorter);
        assert forall|k: int| 0 <= k < deps.len() && !(#[trigger] deps[k]).optional implies name_taken(
            s,
            deps[k].service_name,
        ) by {
            if k < deps.len() - 1 {
                assert(deps[k] == shorter[k]);
            }
        }
    }
}

/// When no service among the first `k` of `s` is listed as requiring `s[t]`, none
/// of them (other than `s[t]`) requires its name.
proof fn lemma_no_dependents(s: Seq<MetadataView>, t: int, k: int)
    requires
        0 <= t < s.len(),
        0 <= k <= s.len(),
        dependents_among(s, t, k).len() == 0,
    ensures
        forall|x: int| 0 <= x < k && x != t ==> !requires_name(#[trigger] s[x], s[t].name),
    decreases k,
{
    if k > 0 {
        lemma_no_dependents(s, t, k - 1);
    }
}

/// When none of the first `k` of `s` (other than `s[t]`) requires its name, none is
/// listed as requiring it.
proof fn lemma_dependents_empty(s: Seq<MetadataView>, t: int, k: int)
    requires
        0 <= t < s.len(),
        0 <= k <= s.len(),
        forall|x: int| 0 <= x < k && x != t ==> !requires_name(#[trigger] s[x], s[t].name),
    ensures
        dependents_among(s, t, k).len() == 0,
    decreases k,
{
    if k > 0 {
        lemma_dependents_empty(s, t, k - 1);
    }
}

/// Removing a service that no other requires keeps every requirement met.
proof fn lemma_remove_keeps_required(s: Seq<MetadataView>, t: int)
    requires
        required_registered(s),
        0 <= t < s.len(),
        forall|x: int| 0 <= x < s.len() && x != t ==> !requires_name(#[trigger] s[x], s[t].name),
    ensures
        required_registered(s.remove(t)),
{
    let r = s.remove(t);
    assert forall|i: int, k: int|
        0 <= i < r.len() && 0 <= k < r[i].dependencies.len() && !(#[trigger] r[i].dependencies[k]).optional
            implies name_taken(r, r[i].dependencies[k].service_name) by {
        let oi = if i < t { i } else { i + 1 };
        assert(r[i] == s[oi]);
        assert(!s[oi].dependencies[k].optional);
        let n = s[oi].dependencies[k].service_name;
        assert(name_taken(s, n));
        let z = choose|z: int| 0 <= z < s.len() && s[z].name == n;
        if z == t {
            assert(requires_name(s[oi], s[t].name));
        } else {
            let rz = if z < t { z } else { z - 1 };
            assert(r[rz] == s[z]);
        }
    }
}

/// Changing records without changing their names or dependencies keeps every
/// requirement met.
proof fn lemma_same_names_keep_required(a: Seq<MetadataView>, b: Seq<MetadataView>)
    requires
        required_registered(a),
        a.len() == b.len(),
        forall|i: int|
            #![trigger a[i], b[i]]
            0 <= i < a.len() ==> a[i].name == b[i].name && a[i].dependencies == b[i].dependencies,
    ensures
        required_registered(b),
{
    assert forall|i: int, k: int|
        0 <= i < b.len() && 0 <= k < b[i].dependencies.len() && !(#[trigger] b[i].dependencies[k]).optional
            implies name_taken(b, b[i].dependencies[k].service_name) by {
        assert(a[i].name == b[i].name && a[i].dependencies == b[i].dependencies);
        assert(a[i].dependencies[k] == b[i].dependencies[k]);
        let z = choose|z: int| 0 <= z < a.len() && a[z].name == a[i].dependencies[k].service_name;
        assert(a[z].name == b[z].name && a[z].dependencies == b[z].dependencies);
    }
}

/// Appending a record whose non-optional dependencies are all met keeps every
/// requirement met.
proof fn lemma_push_keeps_required(s: Seq<MetadataView>, m: MetadataView)
    requires
        required_registered(s),
        forall|k: int|
            0 <= k < m.dependencies.len() && !(#[trigger] m.dependencies[k]).optional ==> name_taken(
                s,
                m.dependencies[k].service_name,
            ),
    ensures
        required_registered(s.push(m)),
{
    let t = s.push(m);
    assert forall|i: int, k: int|
        0 <= i < t.len() && 0 <= k < t[i].dependencies.len() && !(#[trigger] t[i].dependencies[k]).optional
            implies name_taken(t, t[i].dependencies[k].service_name) by {
        let n = t[i].dependencies[k].service_name;
        if i < s.len() {
            assert(t[i] == s[i]);
        } else {
            assert(t[i] == m);
        }
        assert(name_taken(s, n));
        let z = choose|z: int| 0 <= z < s.len() && s[z].name == n;
        assert(t[z] == s[z]);
    }
}

/// A registry of services: their records, an instance of each, and the events
/// not yet handed to the listeners.
pub struct ServiceRegistry<S> {
    services: Vec<ServiceMetadata>,
    instances: Vec<S>,
    events: Vec<ServiceEvent>,
}

impl<S> ServiceRegistry<S> {
    /// The records of the registered services, in registration order.
    pub closed spec fn records(&self) -> Seq<MetadataView> {
        records_view(self.services@)
    }

    /// The service instances, in the order of their records.
    pub closed spec fn instances(&self) -> Seq<S> {
        self.instances@
    }

    /// The events not yet taken.
    pub closed spec fn pending_events(&self) -> Seq<EventView> {
        events_view(self.events@)
    }

    /// The registry's invariant: one instance per record, names and identifiers
    /// unique, versions well-formed, and no dependency cycle.
    pub closed spec fn wf(&self) -> bool {
        &&& self.instances@.len() == self.services@.len()
        &&& names_unique(self.records())
        &&& ids_unique(self.records())
        &&& !has_dependency_cycle(self.records())
        &&& required_registered(self.records())
        &&& forall|i: int| 0 <= i < self.services@.len() ==> semver_version_parses(#[trigger] self.services@[i].version@)
    }

    /// The state of `self` and `other` agrees.
    pub open spec fn same_state(self, other: Self) -> bool {
        &&& self.records() == other.records()
        &&& self.instances() == other.instances()
        &&& self.pending_events() == other.pending_events()
    }

    /// The invariant, spelled out.
    pub proof fn lemma_consistent(&self)
        requires
            self.wf(),
        ensures
            self.instances().len() == self.records().len(),
            names_unique(self.records()),
            ids_unique(self.records()),
            !has_dependency_cycle(self.records()),
            required_registered(self.records()),
            forall|i: int| 0 <= i < self.records().len() ==> semver_version_parses(#[trigger] self.records()[i].version),
    {
    }

    /// What registering `d` as `id` at time `now` does: on acceptance the record,
    /// marked `Up`, and the instance are added and two events recorded; on refusal
    /// nothing changes and the error says why.
    pub open spec fn registration_outcome(
        before: Self,
        after: Self,
        instance: S,
        d: DescriptorView,
        config: Seq<char>,
        id: Seq<char>,
        now: i64,
        r: Result<(), RegistryError>,
    ) -> bool {
        match registration_verdict(before.records(), d, config, id, now) {
            RegistrationVerdict::Accepted => {
                &&& r is Ok
                &&& after.records() == before.records().push(
                    with_status(new_record(d, config, id, now), ServiceStatus::Up, now),
                )
                &&& after.instances() == before.instances().push(instance)
                &&& after.pending_events() == before.pending_events() + seq![
                    EventView::StatusChanged {
                        service_id: id,
                        old_status: ServiceStatus::Starting,
                        new_status: ServiceStatus::Up,
                    },
                    EventView::Registered {
                        service_id: id,
                        metadata: new_record(d, config, id, now),
                    },
                ]
            },
            RegistrationVerdict::Refused(e) => {
                &&& r matches Err(x) && x@ == e
                &&& after.same_state(before)
            },
            RegistrationVerdict::Cyclic => {
                let candidate = before.records().push(new_record(d, config, id, now));
                &&& after.same_state(before)
                &&& exists|c: Seq<usize>|
                    is_dependency_cycle(candidate, c) && (r matches Err(x) && x@
                        == RegistryErrorView::ConfigurationError(cycle_message(d.name, candidate, c)))
            },
        }
    }

    /// What removing the service with identifier `id` does: refused, with no
    /// change, when no service has it or another requires it; else the record and
    /// instance go, and the status change and the removal are recorded.
    pub open spec fn unregistration_outcome(
        before: Self,
        after: Self,
        id: Seq<char>,
        reason: Seq<char>,
        r: Result<(), RegistryError>,
    ) -> bool {
        match index_of_id(before.records(), id) {
            None => {
                &&& r matches Err(x) && x@ == RegistryErrorView::InvalidParameters(not_found_message(id))
                &&& after.same_state(before)
            },
            Some(t) => if dependents(before.records(), t).len() > 0 {
                &&& r matches Err(x) && x@ == RegistryErrorView::ConfigurationError(
                    "Cannot remove service "@ + before.records()[t].name
                        + " because it is required by: "@ + join_text(
                        dependents(before.records(), t),
                        ", "@,
                    ),
                )
                &&& after.same_state(before)
            } else {
                &&& r is Ok
                &&& after.records() == before.records().remove(t)
                &&& after.instances() == before.instances().remove(t)
                &&& after.pending_events() == before.pending_events() + status_change_events(
                    id,
                    before.records()[t].status,
                    ServiceStatus::Stopping,
                ) + seq![EventView::Unregistered { service_id: id, reason: reason }]
            },
        }
    }


    /// A registration that succeeds adds the service's record, under its name and
    /// identifier and with status `Up`, and its instance, after all earlier ones.
    pub proof fn lemma_registered_service_is_up(
        before: Self,
        after: Self,
        instance: S,
        d: DescriptorView,
        config: Seq<char>,
        id: Seq<char>,
        now: i64,
        r: Result<(), RegistryError>,
    )
        requires
            Self::registration_outcome(before, after, instance, d, config, id, now, r),
            r is Ok,
        ensures
            after.records().len() == before.records().len() + 1,
            after.records().last().name == d.name,
            after.records().last().id == id,
            after.records().last().status == ServiceStatus::Up,
            after.instances().last() == instance,
            after.records().drop_last() == before.records(),
    {
        assert(after.records().drop_last() =~= before.records());
    }

    /// Registering a service succeeds exactly when every dependency is
    /// satisfied (registered, at a matching version, and up unless optional),
    /// its name and identifier are new, and it closes no dependency cycle. A
    /// refusal leaves the services as they were; a success adds one record,
    /// the only one with its name, marked `Up`, after the others.
    pub proof fn lemma_registration_law(
        before: Self,
        after: Self,
        instance: S,
        d: DescriptorView,
        config: Seq<char>,
        id: Seq<char>,
        now: i64,
        r: Result<(), RegistryError>,
    )
        requires
            Self::registration_outcome(before, after, instance, d, config, id, now, r),
        ensures
            r is Ok <==> {
                &&& dependencies_problem(before.records(), d.name, d.dependencies) is None
                &&& !name_taken(before.records(), d.name)
                &&& !id_taken(before.records(), id)
                &&& !has_dependency_cycle(before.records().push(new_record(d, config, id, now)))
            },
            r is Err ==> after.records() == before.records() && after.instances() == before.instances(),
            r is Ok ==> {
                &&& after.records().len() == before.records().len() + 1
                &&& after.records().drop_last() == before.records()
                &&& after.records().last().name == d.name
                &&& after.records().last().id == id
                &&& after.records().last().status == ServiceStatus::Up
                &&& forall|i: int| 0 <= i < before.records().len() ==> #[trigger] after.records()[i].name != d.name
            },
    {
        if r is Ok {
            assert(after.records().drop_last() =~= before.records());
            assert forall|i: int| 0 <= i < before.records().len() implies #[trigger] after.records()[i].name != d.name by {
                assert(after.records()[i] == before.records()[i]);
            }
        }
    }

    /// Removing the service with identifier `id` fails when no service has it
    /// (not found) or when another registered service requires it by a
    /// non-optional dependency (an error naming those that require it), and
    /// then changes nothing; else exactly that service leaves, the others stay
    /// in order, and no service has the identifier any more.
    pub proof fn lemma_unregistration_law(
        before: Self,
        after: Self,
        id: Seq<char>,
        reason: Seq<char>,
        r: Result<(), RegistryError>,
    )
        requires
            before.wf(),
            Self::unregistration_outcome(before, after, id, reason, r),
        ensures
            r is Err <==> (index_of_id(before.records(), id) is None || exists|t: int|
                index_of_id(before.records(), id) == Some(t) && dependents(before.records(), t).len() > 0),
            index_of_id(before.records(), id) is None ==> (r matches Err(x) && x@
                == RegistryErrorView::InvalidParameters(not_found_message(id))),
            r is Err ==> after.records() == before.records() && after.instances() == before.instances(),
            r is Ok ==> exists|t: int|
                0 <= t < before.records().len() && before.records()[t].id == id && after.records()
                    == before.records().remove(t) && after.instances() == before.instances().remove(t),
            r is Ok ==> index_of_id(after.records(), id) is None,
    {
        before.lemma_consistent();
        let s = before.records();
        match index_of_id(s, id) {
            None => {},
            Some(t) => {
                assert(0 <= t < s.len() && s[t].id == id);
                if r is Ok {
                    let a = after.records();
                    assert forall|i: int| 0 <= i < a.len() implies a[i].id != id by {
                        if i < t {
                            assert(a[i] == s[i]);
                        } else {
                            assert(a[i] == s[i + 1]);
                        }
                    }
                }
            },
        }
    }

    /// A service whose name is already registered is refused, and nothing changes.
    pub proof fn lemma_duplicate_name_refused(
        before: Self,
        after: Self,
        instance: S,
        d: DescriptorView,
        config: Seq<char>,
        id: Seq<char>,
        now: i64,
        r: Result<(), RegistryError>,
    )
        requires
            Self::registration_outcome(before, after, instance, d, config, id, now, r),
            name_taken(before.records(), d.name),
        ensures
            r is Err,
            after.same_state(before),
    {
    }

    /// Removing a service right after registering it succeeds and gives back the
    /// registry's services and instances as they were.
    pub proof fn lemma_register_then_unregister(
        before: Self,
        middle: Self,
        after: Self,
        instance: S,
        d: DescriptorView,
        config: Seq<char>,
        id: Seq<char>,
        now: i64,
        reason: Seq<char>,
        r1: Result<(), RegistryError>,
        r2: Result<(), RegistryError>,
    )
        requires
            before.wf(),
            Self::registration_outcome(before, middle, instance, d, config, id, now, r1),
            r1 is Ok,
            Self::unregistration_outcome(middle, after, id, reason, r2),
        ensures
            r2 is Ok,
            after.records() == before.records(),
            after.instances() == before.instances(),
    {
        let s = before.records();
        let m = middle.records();
        let n = s.len() as int;
        assert(!name_taken(s, d.name));
        assert(!id_taken(s, id));
        assert(m[n].id == id);
        let c = choose|i: int| 0 <= i < m.len() && m[i].id == id;
        if c != n {
            assert(m[c] == s[c]);
        }
        assert(index_of_id(m, id) == Some(n));
        assert forall|x: int| 0 <= x < m.len() && x != n implies !requires_name(#[trigger] m[x], m[n].name) by {
            assert(m[x] == s[x]);
            if requires_name(s[x], d.name) {
                let k = choose|k: int|
                    0 <= k < s[x].dependencies.len() && #[trigger] s[x].dependencies[k].service_name == d.name
                        && !s[x].dependencies[k].optional;
                assert(!s[x].dependencies[k].optional);
                assert(name_taken(s, s[x].dependencies[k].service_name));
            }
        }
        lemma_dependents_empty(m, n, m.len() as int);
        assert(m.remove(n) =~= s);
        assert(middle.instances().remove(n) =~= before.instances());
    }

    /// An empty registry.
    pub fn new() -> (r: Self)
        ensures
            r.wf(),
            r.records().len() == 0,
            r.instances().len() == 0,
            r.pending_events().len() == 0,
    {
        let r = ServiceRegistry { services: Vec::new(), instances: Vec::new(), events: Vec::new() };
        proof {
            if has_dependency_cycle(r.records()) {
                let mark = choose|mark: Seq<bool>| is_cycle_witness(r.records(), mark);
            }
        }
        r
    }

    /// Registers a service under identifier `id` at time `now` (milliseconds since
    /// the Unix epoch): checks its dependencies, then that its name and identifier
    /// are free, then that it closes no dependency cycle; if all holds, adds its
    /// record, marked `Up`, and its instance, and records a status change from
    /// `Starting` to `Up` and the registration.
    pub fn register_service_at(
        &mut self,
        instance: S,
        d: ServiceDescriptor,
        config: String,
        id: String,
        now: i64,
    ) -> (r: Result<(), RegistryError>)
        requires
            old(self).wf(),
            descriptor_valid(d@),
        ensures
            final(self).wf(),
            Self::registration_outcome(*old(self), *final(self), instance, d@, config@, id@, now, r),
    {
        let ghost s = self.records();
        let ghost rec = new_record(d@, config@, id@, now);
        assert forall|k: int| 0 <= k < d.dependencies.len() implies semver_requirement_parses(
            #[trigger] d.dependencies@[k].version_req@,
        ) by {
            assert(d@.dependencies[k] == d.dependencies@[k]@);
            assert(semver_requirement_parses(d@.dependencies[k].version_req));
        }
        let problem = dependencies_problem_text(&self.services, &d.name, &d.dependencies);
        match problem {
            Some(m) => {
                assert(dependencies_problem(s, d@.name, d@.dependencies) == Some(m@));
                assert(registration_verdict(s, d@, config@, id@, now) == RegistrationVerdict::Refused(
                    RegistryErrorView::ConfigurationError(m@),
                ));
                let r = Err(RegistryError::ConfigurationError(m));
                assert(r matches Err(x) && x@ == RegistryErrorView::ConfigurationError(m@));
                return r;
            },
            None => {},
        }
        if let Some(i) = position_by_name(&self.services, &d.name) {
            let mut m = String::from_str("Service '");
            m.append(d.name.as_str());
            m.append("' is already registered");
            assert(s[i as int].name == d@.name);
            assert(registration_verdict(s, d@, config@, id@, now) == RegistrationVerdict::Refused(
                RegistryErrorView::ConfigurationError(m@),
            ));
            let r = Err(RegistryError::ConfigurationError(m));
            assert(r matches Err(x) && x@ == RegistryErrorView::ConfigurationError(m@));
            return r;
        }
        proof {
            assert(!name_taken(s, d@.name));
        }
        if let Some(i) = position_by_id(&self.services, &id) {
            let mut m = String::from_str("Service ");
            m.append(d.name.as_str());
            m.append(" is already registered");
            assert(s[i as int].id == id@);
            assert(registration_verdict(s, d@, config@, id@, now) == RegistrationVerdict::Refused(
                RegistryErrorView::ConfigurationError(m@),
            ));
            let r = Err(RegistryError::ConfigurationError(m));
            assert(r matches Err(x) && x@ == RegistryErrorView::ConfigurationError(m@));
            return r;
        }
        proof {
            assert(!id_taken(s, id@));
        }
        let record = ServiceMetadata {
            id: copy_string(&id),
            name: d.name,
            version: d.version,
            description: d.description,
            tools: d.tools,
            dependencies: d.dependencies,
            status: ServiceStatus::Starting,
            registered_at: now,
            last_health_check: None,
            config,
        };
        assert(record@ == rec);
        let mut candidate = copy_records(&self.services);
        candidate.push(record.duplicate());
        proof {
            assert(records_view(candidate@) =~= s.push(rec));
        }
        match find_dependency_cycle(&candidate) {
            Some(c) => {
                let mut m = String::from_str("Circular dependency detected when registering service ");
                m.append(record.name.as_str());
                m.append(". Cycles: ");
                m.append(walk_text(&candidate, &c).as_str());
                return Err(RegistryError::ConfigurationError(m));
            },
            None => {},
        }
        let announced = record.duplicate();
        let mut started = record;
        started.status = ServiceStatus::Up;
        started.last_health_check = Some(now);
        self.services.push(started);
        self.instances.push(instance);
        self.events.push(
            ServiceEvent::StatusChanged {
                service_id: copy_string(&id),
                old_status: ServiceStatus::Starting,
                new_status: ServiceStatus::Up,
            },
        );
        self.events.push(ServiceEvent::Registered { service_id: id, metadata: announced });
        proof {
            let after = self.records();
            assert(after =~= s.push(with_status(rec, ServiceStatus::Up, now)));
            lemma_same_graph(s.push(rec), after);
            lemma_required_found(s, d@.name, d@.dependencies);
            lemma_push_keeps_required(s, with_status(rec, ServiceStatus::Up, now));
            assert(self.pending_events() =~= old(self).pending_events() + seq![
                EventView::StatusChanged {
                    service_id: id@,
                    old_status: ServiceStatus::Starting,
                    new_status: ServiceStatus::Up,
                },
                EventView::Registered { service_id: id@, metadata: rec },
            ]);
        }
        Ok(())
    }

    /// Registers a service under a fresh identifier: its name, `_`, and a hash of
    /// the name and the current time in hexadecimal (see `register_service_at`).
    /// A version or requirement that does not parse is refused first.
    pub fn register_service(&mut self, instance: S, d: ServiceDescriptor, config: String) -> (r: Result<
        (),
        RegistryError,
    >)
        requires
            old(self).wf(),
        ensures
            final(self).wf(),
            match descriptor_problem(d@) {
                Some(m) => {
                    &&& r matches Err(x) && x@ == RegistryErrorView::InvalidParameters(m)
                    &&& final(self).same_state(*old(self))
                },
                None => exists|h: u64, now: i64|
                    Self::registration_outcome(
                        *old(self),
                        *final(self),
                        instance,
                        d@,
                        config@,
                        d@.name.push('_') + hex_text(h as nat),
                        now,
                        r,
                    ),
            },
    {
        if !version_parses(d.version.as_str()) {
            let mut m = String::from_str("Invalid version of service ");
            m.append(d.name.as_str());
            m.append(": ");
            m.append(d.version.as_str());
            return Err(RegistryError::InvalidParameters(m));
        }
        let ghost before = *self;
        let mut k: usize = 0;
        while k < d.dependencies.len()
            invariant
                k <= d.dependencies.len(),
                *self == before,
                before.wf(),
                semver_version_parses(d@.version),
                forall|j: int| 0 <= j < k ==> semver_requirement_parses(#[trigger] d@.dependencies[j].version_req),
            decreases d.dependencies.len() - k,
        {
            if !requirement_parses(d.dependencies[k].version_req.as_str()) {
                let mut m = String::from_str("Invalid version requirement of dependency ");
                m.append(d.dependencies[k].service_name.as_str());
                m.append(" of service ");
                m.append(d.name.as_str());
                m.append(": ");
                m.append(d.dependencies[k].version_req.as_str());
                proof {
                    assert(d@.dependencies[k as int] == d.dependencies@[k as int]@);
                    assert(first_bad_requirement(d@.dependencies, k as int));
                    let c = choose|c: int| first_bad_requirement(d@.dependencies, c);
                    if c < k {
                        assert(semver_requirement_parses(d@.dependencies[c].version_req));
                    }
                    if c > k {
                        assert(semver_requirement_parses(d@.dependencies[k as int].version_req));
                    }
                }
                return Err(RegistryError::InvalidParameters(m));
            }
            proof {
                assert(d@.dependencies[k as int] == d.dependencies@[k as int]@);
            }
            k = k + 1;
        }
        proof {
            if exists|c: int| first_bad_requirement(d@.dependencies, c) {
                let c = choose|c: int| first_bad_requirement(d@.dependencies, c);
                assert(semver_requirement_parses(d@.dependencies[c].version_req));
            }
        }
        let now = now_millis();
        let id = generate_service_id(&d.name, now);
        let ghost h = choose|h: u64| id@ == d@.name.push('_') + hex_text(h as nat);
        let ghost before = *self;
        let ghost dv = d@;
        let ghost cv = config@;
        let ghost inst = instance;
        let r = self.register_service_at(instance, d, config, id, now);
        assert(Self::registration_outcome(before, *self, inst, dv, cv, dv.name.push('_') + hex_text(h as nat), now, r));
        r
    }

    /// Removes the service with identifier `id` at time `now`, unless no service has
    /// that identifier or another service requires it (by a non-optional
    /// dependency). Records its status change to `Stopping`, if it was not already,
    /// and its removal with `reason`.
    pub fn unregister_service_at(&mut self, id: &str, reason: String, now: i64) -> (r: Result<(), RegistryError>)
        requires
            old(self).wf(),
        ensures
            final(self).wf(),
            Self::unregistration_outcome(*old(self), *final(self), id@, reason@, r),
    {
        let ghost s = self.records();
        let key = String::from_str(id);
        let t = match position_by_id(&self.services, &key) {
            Some(t) => t,
            None => {
                let mut m = String::from_str("Service ");
                m.append(id);
                m.append(" not found");
                let r = Err(RegistryError::InvalidParameters(m));
                assert(r matches Err(x) && x@ == RegistryErrorView::InvalidParameters(not_found_message(id@)));
                return r;
            },
        };
        proof {
            assert(s[t as int].id == id@);
            let c = choose|i: int| 0 <= i < s.len() && s[i].id == id@;
            if c != t {
                assert(s[c].id == s[t as int].id);
            }
            assert(index_of_id(s, id@) == Some(t as int));
        }
        let names = dependent_names(&self.services, t);
        if names.len() > 0 {
            let mut m = String::from_str("Cannot remove service ");
            m.append(self.services[t].name.as_str());
            m.append(" because it is required by: ");
            m.append(join_strings(&names, ", ").as_str());
            let r = Err(RegistryError::ConfigurationError(m));
            assert(r matches Err(x) && x@ == RegistryErrorView::ConfigurationError(
                "Cannot remove service "@ + s[t as int].name + " because it is required by: "@ + join_text(
                    dependents(s, t as int),
                    ", "@,
                ),
            ));
            return r;
        }
        let ghost events_before = self.pending_events();
        let old_status = self.services[t].status;
        if old_status != ServiceStatus::Stopping {
            self.events.push(
                ServiceEvent::StatusChanged {
                    service_id: copy_string(&key),
                    old_status,
                    new_status: ServiceStatus::Stopping,
                },
            );
        }
        self.services.remove(t);
        self.instances.remove(t);
        self.events.push(ServiceEvent::Unregistered { service_id: key, reason });
        proof {
            assert(self.records() =~= s.remove(t as int));
            lemma_remove_acyclic(s, t as int);
            lemma_no_dependents(s, t as int, s.len() as int);
            lemma_remove_keeps_required(s, t as int);
            assert(self.pending_events() =~= events_before + status_change_events(
                id@,
                s[t as int].status,
                ServiceStatus::Stopping,
            ) + seq![EventView::Unregistered { service_id: id@, reason: reason@ }]);
            assert forall|i: int| 0 <= i < self.services@.len() implies semver_version_parses(
                #[trigger] self.services@[i].version@,
            ) by {
                assert(self.services@[i]@ == self.records()[i]);
                let oi = if i < t { i } else { i + 1 };
                assert(self.records()[i] == s[oi]);
                assert(old(self).services@[oi]@ == s[oi]);
            }
        }
        Ok(())
    }

    /// Removes the service with identifier `id` now (see `unregister_service_at`).
    pub fn unregister_service(&mut self, id: &str, reason: String) -> (r: Result<(), RegistryError>)
        requires
            old(self).wf(),
        ensures
            final(self).wf(),
            Self::unregistration_outcome(*old(self), *final(self), id@, reason@, r),
    {
        let now = now_millis();
        self.unregister_service_at(id, reason, now)
    }

    /// Sets the status of the service with identifier `id` at time `now`, and
    /// records the change if the status differs from the old one.
    pub fn update_service_status_at(&mut self, id: &str, status: ServiceStatus, now: i64) -> (r: Result<
        (),
        RegistryError,
    >)
        requires
            old(self).wf(),
        ensures
            final(self).wf(),
            match index_of_id(old(self).records(), id@) {
                None => {
                    &&& r matches Err(x) && x@ == RegistryErrorView::InvalidParameters(not_found_message(id@))
                    &&& final(self).same_state(*old(self))
                },
                Some(t) => {
                    &&& r is Ok
                    &&& final(self).records() == old(self).records().update(
                        t,
                        with_status(old(self).records()[t], status, now),
                    )
                    &&& final(self).instances() == old(self).instances()
                    &&& final(self).pending_events() == old(self).pending_events() + status_change_events(
                        id@,
                        old(self).records()[t].status,
                        status,
                    )
                },
            },
    {
        let ghost s = self.records();
        let key = String::from_str(id);
        let t = match position_by_id(&self.services, &key) {
            Some(t) => t,
            None => {
                let mut m = String::from_str("Service ");
                m.append(id);
                m.append(" not found");
                let r = Err(RegistryError::InvalidParameters(m));
                assert(r matches Err(x) && x@ == RegistryErrorView::InvalidParameters(not_found_message(id@)));
                return r;
            },
        };
        proof {
            assert(s[t as int].id == id@);
            let c = choose|i: int| 0 <= i < s.len() && s[i].id == id@;
            if c != t {
                assert(s[c].id == s[t as int].id);
            }
            assert(index_of_id(s, id@) == Some(t as int));
        }
        let ghost events_before = self.pending_events();
        let mut record = self.services[t].duplicate();
        let old_status = record.status;
        record.status = status;
        record.last_health_check = Some(now);
        self.services.set(t, record);
        if old_status != status {
            self.events.push(ServiceEvent::StatusChanged { service_id: key, old_status, new_status: status });
        }
        proof {
            assert(self.records() =~= s.update(t as int, with_status(s[t as int], status, now)));
            lemma_same_graph(s, self.records());
            lemma_same_names_keep_required(s, self.records());
            assert(self.pending_events() =~= events_before + status_change_events(id@, s[t as int].status, status));
            assert forall|i: int| 0 <= i < self.services@.len() implies semver_version_parses(
                #[trigger] self.services@[i].version@,
            ) by {
                assert(self.services@[i]@ == self.records()[i]);
                assert(old(self).services@[i]@ == s[i]);
            }
        }
        Ok(())
    }

    /// Sets the status of the service with identifier `id` now (see
    /// `update_service_status_at`).
    pub fn update_service_status(&mut self, id: &str, status: ServiceStatus) -> (r: Result<(), RegistryError>)
        requires
            old(self).wf(),
        ensures
            final(self).wf(),
            match index_of_id(old(self).records(), id@) {
                None => {
                    &&& r matches Err(x) && x@ == RegistryErrorView::InvalidParameters(not_found_message(id@))
                    &&& final(self).same_state(*old(self))
                },
                Some(t) => exists|now: i64| {
                    &&& r is Ok
                    &&& final(self).records() == old(self).records().update(
                        t,
                        with_status(old(self).records()[t], status, now),
                    )
                    &&& final(self).instances() == old(self).instances()
                    &&& final(self).pending_events() == old(self).pending_events() + status_change_events(
                        id@,
                        old(self).records()[t].status,
                        status,
                    )
                },
            },
    {
        let now = now_millis();
        self.update_service_status_at(id, status, now)
    }

    /// Copies of the records of all registered services, in registration order.
    pub fn list_services(&self) -> (r: Vec<ServiceMetadata>)
        ensures
            records_view(r@) == self.records(),
    {
        copy_records(&self.services)
    }

    /// The instance of the service with identifier `id`, if there is one.
    pub fn get_service(&self, id: &str) -> (r: Option<&S>)
        requires
            self.wf(),
        ensures
            match index_of_id(self.records(), id@) {
                None => r is None,
                Some(t) => r matches Some(x) && *x == self.instances()[t],
            },
    {
        let ghost s = self.records();
        let key = String::from_str(id);
        match position_by_id(&self.services, &key) {
            Some(t) => {
                proof {
                    assert(s[t as int].id == id@);
                    let c = choose|i: int| 0 <= i < s.len() && s[i].id == id@;
                    if c != t {
                        assert(s[c].id == s[t as int].id);
                    }
                }
                Some(&self.instances[t])
            },
            None => None,
        }
    }

    /// The instance of the first registered service that offers tool `tool`, if any.
    pub fn find_service_by_tool(&self, tool: &str) -> (r: Option<&S>)
        requires
            self.wf(),
        ensures
            r is None <==> forall|i: int| 0 <= i < self.records().len() ==> !offers_tool(#[trigger] self.records()[i], tool@),
            r matches Some(x) ==> exists|i: int|
                0 <= i < self.records().len() && offers_tool(self.records()[i], tool@) && (forall|j: int|
                    0 <= j < i ==> !offers_tool(#[trigger] self.records()[j], tool@)) && *x == self.instances()[i],
    {
        let ghost s = self.records();
        let key = String::from_str(tool);
        let mut i: usize = 0;
        while i < self.services.len()
            invariant
                i <= self.services.len(),
                self.wf(),
                key@ == tool@,
                s == self.records(),
                forall|j: int| 0 <= j < i ==> !offers_tool(#[trigger] s[j], tool@),
            decreases self.services.len() - i,
        {
            let tools = &self.services[i].tools;
            let mut k: usize = 0;
            while k < tools.len()
                invariant
                    k <= tools.len(),
                    i < self.services.len(),
                    self.wf(),
                    key@ == tool@,
                    s == self.records(),
                    forall|j: int| 0 <= j < i ==> !offers_tool(#[trigger] s[j], tool@),
                    tools == self.services@[i as int].tools,
                    forall|j: int| 0 <= j < k ==> s[i as int].tools[j] != tool@,
                decreases tools.len() - k,
            {
                assert(s[i as int].tools == string_views(tools@));
                assert(s[i as int].tools[k as int] == tools@[k as int]@);
                if tools[k] == key {
                    assert(s[i as int].tools[k as int] == tool@);
                    assert(offers_tool(s[i as int], tool@));
                    let found = &self.instances[i];
                    assert(*found == self.instances()[i as int]);
                    return Some(found);
                }
                k = k + 1;
            }
            i = i + 1;
        }
        None
    }

    /// Copies of the records of the services whose status is `Up`, in registration order.
    pub fn get_healthy_services(&self) -> (r: Vec<ServiceMetadata>)
        ensures
            records_view(r@) == healthy_among(self.records(), self.records().len() as int),
    {
        let ghost s = self.records();
        let mut out: Vec<ServiceMetadata> = Vec::new();
        let mut i: usize = 0;
        while i < self.services.len()
            invariant
                i <= self.services.len(),
                s == self.records(),
                records_view(out@) == healthy_among(s, i as int),
            decreases self.services.len() - i,
        {
            if self.services[i].status == ServiceStatus::Up {
                let ghost before = out@;
                out.push(self.services[i].duplicate());
                assert(records_view(out@) =~= records_view(before).push(s[i as int]));
            }
            i = i + 1;
        }
        out
    }

    /// The identifiers of all services in an order in which each comes after every
    /// service it depends on.
    pub fn get_startup_order(&self) -> (r: Result<Vec<String>, RegistryError>)
        requires
            self.wf(),
        ensures
            r matches Ok(ids) && exists|o: Seq<usize>|
                is_startup_order(self.records(), o) && string_views(ids@) == walk_ids(self.records(), o),
    {
        match startup_order_indices(&self.services) {
            Some(o) => {
                let ids = ids_along(&self.services, &o);
                Ok(ids)
            },
            None => Err(RegistryError::ConfigurationError(String::from_str("Circular dependency detected in service graph"))),
        }
    }

    /// Checks the registered services for dependency cycles; the registry's
    /// invariant rules them out, so this always succeeds.
    pub fn detect_circular_dependencies(&self) -> (r: Result<(), Vec<Vec<String>>>)
        requires
            self.wf(),
        ensures
            r is Ok,
    {
        match find_dependency_cycle(&self.services) {
            Some(c) => {
                let mut cycles: Vec<Vec<String>> = Vec::new();
                cycles.push(ids_along(&self.services, &c));
                Err(cycles)
            },
            None => Ok(()),
        }
    }

    /// For each service, in registration order, its identifier and the identifiers
    /// of the registered services it depends on.
    pub fn get_dependency_graph(&self) -> (r: Vec<(String, Vec<String>)>)
        requires
            self.wf(),
        ensures
            r.len() == self.records().len(),
            forall|i: int|
                0 <= i < r.len() ==> (#[trigger] r@[i]).0@ == self.records()[i].id && string_views(r@[i].1@)
                    == resolved_ids(self.records(), self.records()[i].dependencies),
    {
        let ghost s = self.records();
        let mut out: Vec<(String, Vec<String>)> = Vec::new();
        let mut i: usize = 0;
        while i < self.services.len()
            invariant
                i <= self.services.len(),
                self.wf(),
                s == self.records(),
                out.len() == i,
                forall|j: int|
                    0 <= j < i ==> (#[trigger] out@[j]).0@ == s[j].id && string_views(out@[j].1@)
                        == resolved_ids(s, s[j].dependencies),
            decreases self.services.len() - i,
        {
            let deps = resolved_dependency_ids(&self.services, &self.services[i].dependencies);
            out.push((copy_string(&self.services[i].id), deps));
            i = i + 1;
        }
        out
    }

    /// Hands out the events recorded since the last call, oldest first, and forgets them.
    pub fn take_events(&mut self) -> (r: Vec<ServiceEvent>)
        requires
            old(self).wf(),
        ensures
            final(self).wf(),
            events_view(r@) == old(self).pending_events(),
            final(self).records() == old(self).records(),
            final(self).instances() == old(self).instances(),
            final(self).pending_events().len() == 0,
    {
        let mut taken: Vec<ServiceEvent> = Vec::new();
        std::mem::swap(&mut taken, &mut self.events);
        assert(self.pending_events() =~= Seq::<EventView>::empty());
        taken
    }
}

/// The identifiers of the services at the positions listed in `o`.
fn ids_along(services: &Vec<ServiceMetadata>, o: &Vec<usize>) -> (r: Vec<String>)
    requires
        forall|p: int| 0 <= p < o.len() ==> (o@[p] as int) < services.len(),
    ensures
        string_views(r@) == walk_ids(records_view(services@), o@),
{
    let mut ids: Vec<String> = Vec::new();
    let mut p: usize = 0;
    while p < o.len()
        invariant
            p <= o.len(),
            forall|q: int| 0 <= q < o.len() ==> (o@[q] as int) < services.len(),
            ids.len() == p,
            forall|q: int| 0 <= q < p ==> ids@[q]@ == services@[o@[q] as int].id@,
        decreases o.len() - p,
    {
        ids.push(copy_string(&services[o[p]].id));
        p = p + 1;
    }
    assert(string_views(ids@) =~= walk_ids(records_view(services@), o@));
    ids
}

/// The identifiers of the registered services that `deps` name, in order.
fn resolved_dependency_ids(services: &Vec<ServiceMetadata>, deps: &Vec<ServiceDependency>) -> (r: Vec<String>)
    requires
        names_unique(records_view(services@)),
    ensures
        string_views(r@) == resolved_ids(records_view(services@), dependency_views(deps@)),
{
    let ghost s = records_view(services@);
    let ghost dv = dependency_views(deps@);
    let mut out: Vec<String> = Vec::new();
    let mut k: usize = 0;
    assert(dv.take(0) =~= Seq::<DependencyView>::empty());
    while k < deps.len()
        invariant
            k <= deps.len(),
            s == records_view(services@),
            names_unique(s),
            dv == dependency_views(deps@),
            string_views(out@) == resolved_ids(s, dv.take(k as int)),
        decreases deps.len() - k,
    {
        proof {
            assert(dv.take(k + 1).drop_last() =~= dv.take(k as int));
            assert(dv.take(k + 1).last() == deps@[k as int]@);
        }
        match position_by_name(services, &deps[k].service_name) {
            Some(j) => {
                proof {
                    let c = choose|i: int| 0 <= i < s.len() && s[i].name == deps@[k as int]@.service_name;
                    if c != j {
                        assert(s[c].name == s[j as int].name);
                    }
                }
                let ghost before = out@;
                out.push(copy_string(&services[j].id));
                assert(string_views(out@) =~= string_views(before).push(s[j as int].id));
            },
            None => {},
        }
        k = k + 1;
    }
    assert(dv.take(k as int) =~= dv);
    out
}

/// Whether `m` declares a non-optional dependency on the service named `name`.
fn requires_by_name(m: &ServiceMetadata, name: &String) -> (r: bool)
    ensures
        r == requires_name(m@, name@),
{
    let mut k: usize = 0;
    while k < m.dependencies.len()
        invariant
            k <= m.dependencies.len(),
            forall|j: int|
                0 <= j < k ==> !(#[trigger] m@.dependencies[j].service_name == name@ && !m@.dependencies[j].optional),
        decreases m.dependencies.len() - k,
    {
        assert(m@.dependencies[k as int] == m.dependencies@[k as int]@);
        if m.dependencies[k].service_name == *name && !m.dependencies[k].optional {
            assert(m@.dependencies[k as int].service_name == name@ && !m@.dependencies[k as int].optional);
            return true;
        }
        k = k + 1;
    }
    false
}

/// The names of the services that require service `t`, in registry order.
fn dependent_names(services: &Vec<ServiceMetadata>, t: usize) -> (r: Vec<String>)
    requires
        t < services.len(),
    ensures
        string_views(r@) == dependents(records_view(services@), t as int),
{
    let ghost s = records_view(services@);
    let mut out: Vec<String> = Vec::new();
    let mut x: usize = 0;
    while x < services.len()
        invariant
            x <= services.len(),
            t < services.len(),
            s == records_view(services@),
            string_views(out@) == dependents_among(s, t as int, x as int),
        decreases services.len() - x,
    {
        if x != t && requires_by_name(&services[x], &services[t].name) {
            let ghost before = out@;
            out.push(copy_string(&services[x].name));
            assert(string_views(out@) =~= string_views(before).push(s[x as int].name));
        }
        x = x + 1;
    }
    out
}

/// A copy of a list of records.
fn copy_records(v: &Vec<ServiceMetadata>) -> (r: Vec<ServiceMetadata>)
    ensures
        records_view(r@) == records_view(v@),
{
    let mut out: Vec<ServiceMetadata> = Vec::new();
    let mut i: usize = 0;
    while i < v.len()
        invariant
            i <= v.len(),
            out.len() == i,
            forall|j: int| 0 <= j < i ==> out@[j]@ == v@[j]@,
        decreases v.len() - i,
    {
        out.push(v[i].duplicate());
        i = i + 1;
    }
    assert(records_view(out@) =~= records_view(v@));
    out
}

} // verus!
