pub mod cycles;

use crate::mcp::registry::{join_strings, join_text, string_views};
use crate::text::{debug_list, decimal_text, format_debug_list, format_decimal, same_text, texts};
use vstd::prelude::*;

verus! {

/// A function, as the structural analysis of a source file describes it.
pub struct FunctionInfo {
    /// Name.
    pub name: String,
    /// Parameters, as written.
    pub parameters: Vec<String>,
    /// First line.
    pub line_start: usize,
    /// Last line.
    pub line_end: usize,
    /// Visibility, as written (such as `public`), if any.
    pub visibility: Option<String>,
}

/// A class, as the structural analysis of a source file describes it.
pub struct ClassInfo {
    /// Name.
    pub name: String,
    /// Its methods.
    pub methods: Vec<String>,
    /// First line.
    pub line_start: usize,
    /// The class it extends, if any.
    pub extends: Option<String>,
}

/// The structure of the code under review.
pub struct StructuralSummary {
    /// Functions.
    pub functions: Vec<FunctionInfo>,
    /// Classes.
    pub classes: Vec<ClassInfo>,
}

/// A module, class, interface or function of the dependency graph.
pub struct DependencyNode {
    /// Identifier.
    pub id: String,
    /// Name.
    pub name: String,
    /// Kind.
    pub node_type: NodeType,
    /// Where it is.
    pub file_path: String,
}

/// Kind of a dependency-graph node.
#[derive(Debug, Clone, Copy, PartialEq, Eq, Structural)]
pub enum NodeType {
    /// A module.
    Module,
    /// A class.
    Class,
    /// An interface.
    Interface,
    /// A function.
    Function,
}

/// A dependency between two nodes.
pub struct DependencyEdge {
    /// The dependent.
    pub from: String,
    /// What it depends on.
    pub to: String,
    /// How.
    pub dependency_type: DependencyType,
}

/// How one node depends on another.
#[derive(Debug, Clone, Copy, PartialEq, Eq, Structural)]
pub enum DependencyType {
    /// Imports it.
    Import,
    /// Inherits from it.
    Inheritance,
    /// Holds it.
    Composition,
    /// Calls it.
    MethodCall,
}

/// `nodes` are the classes of `summary` as graph nodes, in order, each located
/// by `line:` and its first line; `edges` hold an inheritance edge for each class
/// that extends another, in order.
pub open spec fn class_graph_of(summary: StructuralSummary, nodes: Seq<DependencyNode>, edges: Seq<DependencyEdge>) -> bool {
    &&& nodes.len() == summary.classes.len()
    &&& forall|i: int|
        #![trigger nodes[i]]
        0 <= i < nodes.len() ==> {
            &&& nodes[i].id@ == summary.classes@[i].name@
            &&& nodes[i].name@ == summary.classes@[i].name@
            &&& nodes[i].node_type == NodeType::Class
            &&& nodes[i].file_path@ == "line:"@ + decimal_text(summary.classes@[i].line_start as nat)
        }
    &&& edges.len() == extending_classes(summary.classes@, summary.classes.len() as int).len()
    &&& forall|j: int|
        #![trigger edges[j]]
        0 <= j < edges.len() ==> {
            let c = summary.classes@[extending_classes(summary.classes@, summary.classes.len() as int)[j]];
            &&& edges[j].from@ == c.name@
            &&& Some(edges[j].to@) == (match c.extends {
                Some(e) => Some(e@),
                None => None,
            })
            &&& edges[j].dependency_type == DependencyType::Inheritance
        }
}

/// The dependency graph of the classes, with its cycles.
pub struct DependencyGraph {
    /// The nodes.
    pub nodes: Vec<DependencyNode>,
    /// The edges.
    pub edges: Vec<DependencyEdge>,
    /// The cycles found among the edges.
    pub circular_dependencies: Vec<CircularDependency>,
}

/// A design principle a violation breaks.
#[derive(Debug, Clone, Copy, PartialEq, Eq, Structural)]
pub enum ArchitecturalPattern {
    /// Single responsibility.
    SingleResponsibility,
    /// Open-closed.
    OpenClosed,
    /// Liskov substitution.
    LiskovSubstitution,
    /// Interface segregation.
    InterfaceSegregation,
    /// Dependency inversion.
    DependencyInversion,
    /// Layering.
    LayerViolation,
    /// No cycles.
    CircularDependency,
}

/// Severity of an architectural problem.
#[derive(Debug, Clone, Copy, PartialEq, Eq, Structural)]
pub enum Severity {
    /// Critical.
    Critical,
    /// High.
    High,
    /// Medium.
    Medium,
    /// Low.
    Low,
    /// Information.
    Info,
}

/// A breach of a design principle.
pub struct PatternViolation {
    /// The principle.
    pub pattern_type: ArchitecturalPattern,
    /// What is wrong.
    pub violation_description: String,
    /// Where.
    pub location: String,
    /// How grave.
    pub severity: Severity,
    /// What to do.
    pub suggestion: String,
}

/// A layer of the architecture.
pub struct ArchitecturalLayer {
    /// Name.
    pub name: String,
    /// Components in it.
    pub components: Vec<String>,
    /// Layers it may depend on.
    pub allowed_dependencies: Vec<String>,
    /// Dependencies that break the layering.
    pub violations: Vec<LayerViolation>,
}

/// A dependency that breaks the layering.
pub struct LayerViolation {
    /// Layer depended from.
    pub from_layer: String,
    /// Layer depended on.
    pub to_layer: String,
    /// Component at fault.
    pub violating_component: String,
}

/// A change that breaks consumers.
pub struct BreakingChange {
    /// Kind of change.
    pub change_type: BreakingChangeType,
    /// Component changed.
    pub component: String,
    /// What changed.
    pub description: String,
    /// Who is affected.
    pub affected_consumers: Vec<String>,
    /// How to adapt.
    pub migration_suggestion: String,
}

/// Kind of breaking change.
#[derive(Debug, Clone, Copy, PartialEq, Eq, Structural)]
pub enum BreakingChangeType {
    /// A signature changed.
    ApiSignatureChange,
    /// An API was removed.
    ApiRemoval,
    /// An interface changed.
    InterfaceChange,
    /// A data structure changed.
    DataStructureChange,
    /// Behavior changed.
    BehaviorChange,
}

/// A module a change affects.
pub struct AffectedModule {
    /// Its path.
    pub module: String,
    /// How directly.
    pub impact_level: ImpactLevel,
    /// What must change.
    pub required_changes: Vec<String>,
}

/// How directly a module is affected.
#[derive(Debug, Clone, Copy, PartialEq, Eq, Structural)]
pub enum ImpactLevel {
    /// Directly.
    Direct,
    /// Through others.
    Indirect,
    /// Possibly.
    Potential,
}

/// Risk of a change.
#[derive(Debug, Clone, Copy, PartialEq, Eq, Structural)]
pub enum RiskLevel {
    /// Critical.
    Critical,
    /// High.
    High,
    /// Medium.
    Medium,
    /// Low.
    Low,
}

/// A public API.
pub struct PublicApi {
    /// Name.
    pub name: String,
    /// Kind.
    pub api_type: ApiType,
    /// Signature.
    pub signature: String,
    /// Documentation, if any.
    pub documentation: Option<String>,
    /// How often it is used.
    pub usage_count: usize,
}

/// Kind of API.
#[derive(Debug, Clone, Copy, PartialEq, Eq, Structural)]
pub enum ApiType {
    /// Function.
    Function,
    /// Method.
    Method,
    /// Class.
    Class,
    /// Interface.
    Interface,
    /// Module.
    Module,
}

/// A deprecated API.
pub struct DeprecatedApi {
    /// The API.
    pub api: PublicApi,
    /// Why it is deprecated.
    pub deprecation_reason: String,
    /// What replaces it.
    pub replacement: Option<String>,
}

/// A component whose complexity calls for refactoring.
pub struct ComplexityHotspot {
    /// The component.
    pub component: String,
    /// Its complexity.
    pub complexity_score: u32,
    /// Why.
    pub reasons: Vec<String>,
    /// What to do.
    pub refactoring_suggestions: Vec<String>,
}

/// Positions among the first `k` classes of those that extend another.
pub open spec fn extending_classes(classes: Seq<ClassInfo>, k: int) -> Seq<int>
    decreases k,
{
    if k <= 0 {
        Seq::empty()
    } else if classes[k - 1].extends is Some {
        extending_classes(classes, k - 1).push(k - 1)
    } else {
        extending_classes(classes, k - 1)
    }
}

/// The last function of `fs` named `name`.
pub open spec fn last_named(fs: Seq<FunctionInfo>, name: Seq<char>) -> Option<FunctionInfo>
    decreases fs.len(),
{
    if fs.len() == 0 {
        None
    } else if fs.last().name@ == name {
        Some(fs.last())
    } else {
        last_named(fs.drop_last(), name)
    }
}

/// Whether some function of `fs` is named `name`.
pub open spec fn has_function_named(fs: Seq<FunctionInfo>, name: Seq<char>) -> bool {
    exists|i: int| 0 <= i < fs.len() && (#[trigger] fs[i]).name@ == name
}

/// Whether function `f` has other parameters than the last earlier function of its name.
pub open spec fn signature_changed(previous: Seq<FunctionInfo>, f: FunctionInfo) -> bool {
    match last_named(previous, f.name@) {
        Some(p) => texts(p.parameters@) != texts(f.parameters@),
        None => false,
    }
}

/// Positions among the first `k` current functions whose parameters changed.
pub open spec fn changed_signatures(current: Seq<FunctionInfo>, previous: Seq<FunctionInfo>, k: int) -> Seq<int>
    decreases k,
{
    if k <= 0 {
        Seq::empty()
    } else if signature_changed(previous, current[k - 1]) {
        changed_signatures(current, previous, k - 1).push(k - 1)
    } else {
        changed_signatures(current, previous, k - 1)
    }
}

proof fn lemma_changed_signatures_members(current: Seq<FunctionInfo>, previous: Seq<FunctionInfo>, k: int)
    requires
        0 <= k <= current.len(),
    ensures
        forall|i: int|
            0 <= i < k ==> (changed_signatures(current, previous, k).contains(i) <==> signature_changed(
                previous,
                #[trigger] current[i],
            )),
        forall|j: int|
            0 <= j < changed_signatures(current, previous, k).len() ==> 0 <= #[trigger] changed_signatures(
                current,
                previous,
                k,
            )[j] < k,
    decreases k,
{
    if k > 0 {
        lemma_changed_signatures_members(current, previous, k - 1);
        let a = changed_signatures(current, previous, k - 1);
        let b = changed_signatures(current, previous, k);
        assert forall|i: int| 0 <= i < k implies (b.contains(i) <==> signature_changed(previous, #[trigger] current[i])) by {
            if i < k - 1 {
                if b.contains(i) {
                    let j = choose|j: int| 0 <= j < b.len() && b[j] == i;
                    if j < a.len() {
                        assert(a[j] == b[j]);
                    }
                }
                if a.contains(i) {
                    let j = choose|j: int| 0 <= j < a.len() && a[j] == i;
                    assert(b[j] == a[j]);
                }
            } else {
                if signature_changed(previous, current[k - 1]) {
                    assert(b[b.len() - 1] == k - 1);
                } else if b.contains(i) {
                    let j = choose|j: int| 0 <= j < b.len() && b[j] == i;
                }
            }
        }
    }
}

/// A current function is reported as having a changed signature exactly when
/// an earlier function has its name and the last such one took a different
/// list of parameters, compared text by text (lists of one length included).
pub proof fn lemma_signature_change_detected(current: Seq<FunctionInfo>, previous: Seq<FunctionInfo>, i: int)
    requires
        0 <= i < current.len(),
    ensures
        changed_signatures(current, previous, current.len() as int).contains(i) <==> (match last_named(
            previous,
            current[i].name@,
        ) {
            Some(p) => p.parameters@.len() != current[i].parameters@.len() || exists|j: int|
                0 <= j < p.parameters@.len() && p.parameters@[j]@ != current[i].parameters@[j]@,
            None => false,
        }),
{
    lemma_changed_signatures_members(current, previous, current.len() as int);
    let f = current[i];
    match last_named(previous, f.name@) {
        Some(p) => {
            let a = texts(p.parameters@);
            let b = texts(f.parameters@);
            if a == b {
                assert(p.parameters@.len() == f.parameters@.len()) by {
                    assert(a.len() == b.len());
                }
                assert forall|j: int| 0 <= j < p.parameters@.len() implies p.parameters@[j]@ == f.parameters@[j]@ by {
                    assert(a[j] == b[j]);
                }
            } else if p.parameters@.len() == f.parameters@.len() {
                if forall|j: int| 0 <= j < p.parameters@.len() ==> p.parameters@[j]@ == f.parameters@[j]@ {
                    assert(a =~= b);
                }
            }
        },
        None => {},
    }
}

/// Positions among the first `k` earlier functions whose name no current function has.
pub open spec fn removed_functions(current: Seq<FunctionInfo>, previous: Seq<FunctionInfo>, k: int) -> Seq<int>
    decreases k,
{
    if k <= 0 {
        Seq::empty()
    } else if !has_function_named(current, previous[k - 1].name@) {
        removed_functions(current, previous, k - 1).push(k - 1)
    } else {
        removed_functions(current, previous, k - 1)
    }
}

/// `c` reports that `f` takes other parameters than `p` did.
pub open spec fn signature_change_of(p: FunctionInfo, f: FunctionInfo, c: BreakingChange) -> bool {
    &&& c.change_type == BreakingChangeType::ApiSignatureChange
    &&& c.component@ == f.name@
    &&& c.description@ == "函数 "@ + f.name@ + " 的参数从 "@ + debug_list(texts(p.parameters@)) + " 改为 "@
        + debug_list(texts(f.parameters@))
    &&& c.affected_consumers.len() == 0
    &&& c.migration_suggestion@ == "更新所有调用点以匹配新的参数签名"@
}

/// `c` reports that `p` was removed.
pub open spec fn removal_of(p: FunctionInfo, c: BreakingChange) -> bool {
    &&& c.change_type == BreakingChangeType::ApiRemoval
    &&& c.component@ == p.name@
    &&& c.description@ == "函数 "@ + p.name@ + " 被删除"@
    &&& c.affected_consumers.len() == 0
    &&& c.migration_suggestion@ == "寻找替代 API 或恢复该函数"@
}

fn last_function_named(fs: &Vec<FunctionInfo>, name: &str) -> (r: Option<usize>)
    ensures
        match r {
            Some(i) => i < fs.len() && last_named(fs@, name@) == Some(fs@[i as int]),
            None => last_named(fs@, name@) is None,
        },
{
    let mut k: usize = fs.len();
    assert(fs@.take(k as int) =~= fs@);
    while k > 0
        invariant
            k <= fs.len(),
            last_named(fs@, name@) == last_named(fs@.take(k as int), name@),
        decreases k,
    {
        assert(fs@.take(k as int).drop_last() =~= fs@.take(k - 1));
        if same_text(fs[k - 1].name.as_str(), name) {
            return Some(k - 1);
        }
        k = k - 1;
    }
    None
}

fn any_function_named(fs: &Vec<FunctionInfo>, name: &str) -> (r: bool)
    ensures
        r == has_function_named(fs@, name@),
{
    let mut i: usize = 0;
    while i < fs.len()
        invariant
            i <= fs.len(),
            forall|j: int| 0 <= j < i ==> (#[trigger] fs@[j]).name@ != name@,
        decreases fs.len() - i,
    {
        if same_text(fs[i].name.as_str(), name) {
            return true;
        }
        i = i + 1;
    }
    false
}

fn same_texts(a: &Vec<String>, b: &Vec<String>) -> (r: bool)
    ensures
        r == (texts(a@) == texts(b@)),
{
    if a.len() != b.len() {
        assert(texts(a@).len() != texts(b@).len());
        return false;
    }
    let mut i: usize = 0;
    while i < a.len()
        invariant
            i <= a.len(),
            a.len() == b.len(),
            forall|j: int| 0 <= j < i ==> a@[j]@ == b@[j]@,
        decreases a.len() - i,
    {
        if !same_text(a[i].as_str(), b[i].as_str()) {
            assert(texts(a@)[i as int] != texts(b@)[i as int]);
            return false;
        }
        i = i + 1;
    }
    assert(texts(a@) =~= texts(b@));
    true
}


/// A cycle of dependencies.
pub struct CircularDependency {
    /// The nodes along the cycle.
    pub cycle: Vec<String>,
    /// How grave it is.
    pub severity: Severity,
}

/// The name `{:?}` gives a design principle.
pub open spec fn pattern_name(p: ArchitecturalPattern) -> Seq<char> {
    match p {
        ArchitecturalPattern::SingleResponsibility => "SingleResponsibility"@,
        ArchitecturalPattern::OpenClosed => "OpenClosed"@,
        ArchitecturalPattern::LiskovSubstitution => "LiskovSubstitution"@,
        ArchitecturalPattern::InterfaceSegregation => "InterfaceSegregation"@,
        ArchitecturalPattern::DependencyInversion => "DependencyInversion"@,
        ArchitecturalPattern::LayerViolation => "LayerViolation"@,
        ArchitecturalPattern::CircularDependency => "CircularDependency"@,
    }
}

/// The name `{:?}` gives a severity.
pub open spec fn severity_name(s: Severity) -> Seq<char> {
    match s {
        Severity::Critical => "Critical"@,
        Severity::High => "High"@,
        Severity::Medium => "Medium"@,
        Severity::Low => "Low"@,
        Severity::Info => "Info"@,
    }
}

/// The name `{:?}` gives a kind of breaking change.
pub open spec fn change_type_name(t: BreakingChangeType) -> Seq<char> {
    match t {
        BreakingChangeType::ApiSignatureChange => "ApiSignatureChange"@,
        BreakingChangeType::ApiRemoval => "ApiRemoval"@,
        BreakingChangeType::InterfaceChange => "InterfaceChange"@,
        BreakingChangeType::DataStructureChange => "DataStructureChange"@,
        BreakingChangeType::BehaviorChange => "BehaviorChange"@,
    }
}

/// The name `{:?}` gives a risk level.
pub open spec fn risk_name(r: RiskLevel) -> Seq<char> {
    match r {
        RiskLevel::Critical => "Critical"@,
        RiskLevel::High => "High"@,
        RiskLevel::Medium => "Medium"@,
        RiskLevel::Low => "Low"@,
    }
}

fn pattern_name_of(p: ArchitecturalPattern) -> (r: &'static str)
    ensures
        r@ == pattern_name(p),
{
    match p {
        ArchitecturalPattern::SingleResponsibility => "SingleResponsibility",
        ArchitecturalPattern::OpenClosed => "OpenClosed",
        ArchitecturalPattern::LiskovSubstitution => "LiskovSubstitution",
        ArchitecturalPattern::InterfaceSegregation => "InterfaceSegregation",
        ArchitecturalPattern::DependencyInversion => "DependencyInversion",
        ArchitecturalPattern::LayerViolation => "LayerViolation",
        ArchitecturalPattern::CircularDependency => "CircularDependency",
    }
}

fn severity_name_of(s: Severity) -> (r: &'static str)
    ensures
        r@ == severity_name(s),
{
    match s {
        Severity::Critical => "Critical",
        Severity::High => "High",
        Severity::Medium => "Medium",
        Severity::Low => "Low",
        Severity::Info => "Info",
    }
}

fn change_type_name_of(t: BreakingChangeType) -> (r: &'static str)
    ensures
        r@ == change_type_name(t),
{
    match t {
        BreakingChangeType::ApiSignatureChange => "ApiSignatureChange",
        BreakingChangeType::ApiRemoval => "ApiRemoval",
        BreakingChangeType::InterfaceChange => "InterfaceChange",
        BreakingChangeType::DataStructureChange => "DataStructureChange",
        BreakingChangeType::BehaviorChange => "BehaviorChange",
    }
}

fn risk_name_of(r: RiskLevel) -> (s: &'static str)
    ensures
        s@ == risk_name(r),
{
    match r {
        RiskLevel::Critical => "Critical",
        RiskLevel::High => "High",
        RiskLevel::Medium => "Medium",
        RiskLevel::Low => "Low",
    }
}

/// The line of a violation in the context for the model.
pub open spec fn violation_entry(v: PatternViolation) -> Seq<char> {
    "- **"@ + pattern_name(v.pattern_type) + "**: "@ + v.violation_description@ + " (位置: "@ + v.location@
        + ")\n  建议: "@ + v.suggestion@ + "\n"@
}

/// The line of a cycle in the context for the model.
pub open spec fn cycle_entry(c: CircularDependency) -> Seq<char> {
    "- 循环: "@ + join_text(string_views(c.cycle@), " -> "@) + " (严重性: "@ + severity_name(c.severity) + ")\n"@
}

/// The lines of a breaking change in the context for the model.
pub open spec fn change_entry(c: BreakingChange) -> Seq<char> {
    "- **"@ + change_type_name(c.change_type) + "**: "@ + c.description@ + "\n  影响: "@ + debug_list(
        texts(c.affected_consumers@),
    ) + "\n  建议: "@ + c.migration_suggestion@ + "\n"@
}

/// The lines of a complexity hotspot in the context for the model.
pub open spec fn hotspot_entry(h: ComplexityHotspot) -> Seq<char> {
    "- **"@ + h.component@ + "** (复杂度: "@ + decimal_text(h.complexity_score as nat) + ")\n  原因: "@ + join_text(
        string_views(h.reasons@),
        ", "@,
    ) + "\n  建议: "@ + join_text(string_views(h.refactoring_suggestions@), "; "@) + "\n"@
}

/// The entries of the first `k` violations.
pub open spec fn violation_entries(vs: Seq<PatternViolation>, k: int) -> Seq<char>
    decreases k,
{
    if k <= 0 {
        Seq::empty()
    } else {
        violation_entries(vs, k - 1) + violation_entry(vs[k - 1])
    }
}

/// The entries of the first `k` cycles.
pub open spec fn cycle_entries(cs: Seq<CircularDependency>, k: int) -> Seq<char>
    decreases k,
{
    if k <= 0 {
        Seq::empty()
    } else {
        cycle_entries(cs, k - 1) + cycle_entry(cs[k - 1])
    }
}

/// The entries of the first `k` breaking changes.
pub open spec fn change_entries(cs: Seq<BreakingChange>, k: int) -> Seq<char>
    decreases k,
{
    if k <= 0 {
        Seq::empty()
    } else {
        change_entries(cs, k - 1) + change_entry(cs[k - 1])
    }
}

/// The entries of the first `k` hotspots.
pub open spec fn hotspot_entries(hs: Seq<ComplexityHotspot>, k: int) -> Seq<char>
    decreases k,
{
    if k <= 0 {
        Seq::empty()
    } else {
        hotspot_entries(hs, k - 1) + hotspot_entry(hs[k - 1])
    }
}

/// A titled section of the context, left out where it has no entries.
pub open spec fn section(title: Seq<char>, n: nat, entries: Seq<char>) -> Seq<char> {
    if n == 0 {
        Seq::empty()
    } else {
        title + entries + "\n"@
    }
}

/// The context on the project's architecture given to the model, up to the
/// impact assessment: its heading, then the violations, cycles, breaking
/// changes and complexity hotspots, each section only where it has entries.
pub open spec fn ai_context_text(
    violations: Seq<PatternViolation>,
    cycles: Seq<CircularDependency>,
    changes: Seq<BreakingChange>,
    hotspots: Seq<ComplexityHotspot>,
) -> Seq<char> {
    "## 项目架构洞察\n\n"@ + section("### 架构模式违规\n"@, violations.len(), violation_entries(violations, violations.len() as int))
        + section("### 循环依赖\n"@, cycles.len(), cycle_entries(cycles, cycles.len() as int)) + section(
        "### 破坏性变更\n"@,
        changes.len(),
        change_entries(changes, changes.len() as int),
    ) + section("### 复杂度热点\n"@, hotspots.len(), hotspot_entries(hotspots, hotspots.len() as int))
}

fn append_hotspot_entry(c: &mut String, h: &ComplexityHotspot)
    ensures
        final(c)@ == old(c)@ + hotspot_entry(*h),
{
    let ghost c0 = c@;
    c.append("- **");
    c.append(h.component.as_str());
    c.append("** (复杂度: ");
    c.append(format_decimal(h.complexity_score as u64).as_str());
    c.append(")\n  原因: ");
    c.append(join_strings(&h.reasons, ", ").as_str());
    c.append("\n  建议: ");
    c.append(join_strings(&h.refactoring_suggestions, "; ").as_str());
    c.append("\n");
    assert(c@ =~= c0 + hotspot_entry(*h));
}

fn append_change_entry(c: &mut String, d: &BreakingChange)
    ensures
        final(c)@ == old(c)@ + change_entry(*d),
{
    let ghost c0 = c@;
    c.append("- **");
    c.append(change_type_name_of(d.change_type));
    c.append("**: ");
    c.append(d.description.as_str());
    c.append("\n  影响: ");
    c.append(format_debug_list(&d.affected_consumers).as_str());
    c.append("\n  建议: ");
    c.append(d.migration_suggestion.as_str());
    c.append("\n");
    assert(c@ =~= c0 + change_entry(*d));
}

fn append_violations(c: &mut String, violations: &Vec<PatternViolation>)
    ensures
        final(c)@ == old(c)@ + section("### 架构模式违规\n"@, violations@.len(), violation_entries(violations@, violations.len() as int)),
{
    if violations.len() > 0 {
        let ghost c0 = c@;
        c.append("### 架构模式违规\n");
        let ghost head = c@;
        let mut i: usize = 0;
        while i < violations.len()
            invariant
                i <= violations.len(),
                c@ == head + violation_entries(violations@, i as int),
            decreases violations.len() - i,
        {
            let v = &violations[i];
            c.append("- **");
            c.append(pattern_name_of(v.pattern_type));
            c.append("**: ");
            c.append(v.violation_description.as_str());
            c.append(" (位置: ");
            c.append(v.location.as_str());
            c.append(")\n  建议: ");
            c.append(v.suggestion.as_str());
            c.append("\n");
            i = i + 1;
            assert(c@ =~= head + violation_entries(violations@, i as int));
        }
        c.append("\n");
        assert(c@ =~= c0 + section("### 架构模式违规\n"@, violations@.len(), violation_entries(violations@, violations.len() as int)));
    } else {
        assert(c@ =~= c@ + section("### 架构模式违规\n"@, violations@.len(), violation_entries(violations@, violations.len() as int)));
    }
}

fn append_cycles(c: &mut String, cycles: &Vec<CircularDependency>)
    ensures
        final(c)@ == old(c)@ + section("### 循环依赖\n"@, cycles@.len(), cycle_entries(cycles@, cycles.len() as int)),
{
    if cycles.len() > 0 {
        let ghost c0 = c@;
        c.append("### 循环依赖\n");
        let ghost head = c@;
        let mut i: usize = 0;
        while i < cycles.len()
            invariant
                i <= cycles.len(),
                c@ == head + cycle_entries(cycles@, i as int),
            decreases cycles.len() - i,
        {
            let d = &cycles[i];
            c.append("- 循环: ");
            c.append(join_strings(&d.cycle, " -> ").as_str());
            c.append(" (严重性: ");
            c.append(severity_name_of(d.severity));
            c.append(")\n");
            i = i + 1;
            assert(c@ =~= head + cycle_entries(cycles@, i as int));
        }
        c.append("\n");
        assert(c@ =~= c0 + section("### 循环依赖\n"@, cycles@.len(), cycle_entries(cycles@, cycles.len() as int)));
    } else {
        assert(c@ =~= c@ + section("### 循环依赖\n"@, cycles@.len(), cycle_entries(cycles@, cycles.len() as int)));
    }
}

fn append_changes(c: &mut String, changes: &Vec<BreakingChange>)
    ensures
        final(c)@ == old(c)@ + section("### 破坏性变更\n"@, changes@.len(), change_entries(changes@, changes.len() as int)),
{
    if changes.len() > 0 {
        let ghost c0 = c@;
        c.append("### 破坏性变更\n");
        let ghost head = c@;
        let mut i: usize = 0;
        while i < changes.len()
            invariant
                i <= changes.len(),
                c@ == head + change_entries(changes@, i as int),
            decreases changes.len() - i,
        {
            append_change_entry(c, &changes[i]);
            i = i + 1;
            assert(c@ =~= head + change_entries(changes@, i as int));
        }
        c.append("\n");
        assert(c@ =~= c0 + section("### 破坏性变更\n"@, changes@.len(), change_entries(changes@, changes.len() as int)));
    } else {
        assert(c@ =~= c@ + section("### 破坏性变更\n"@, changes@.len(), change_entries(changes@, changes.len() as int)));
    }
}

fn append_hotspots(c: &mut String, hotspots: &Vec<ComplexityHotspot>)
    ensures
        final(c)@ == old(c)@ + section("### 复杂度热点\n"@, hotspots@.len(), hotspot_entries(hotspots@, hotspots.len() as int)),
{
    if hotspots.len() > 0 {
        let ghost c0 = c@;
        c.append("### 复杂度热点\n");
        let ghost head = c@;
        let mut i: usize = 0;
        while i < hotspots.len()
            invariant
                i <= hotspots.len(),
                c@ == head + hotspot_entries(hotspots@, i as int),
            decreases hotspots.len() - i,
        {
            append_hotspot_entry(c, &hotspots[i]);
            i = i + 1;
            assert(c@ =~= head + hotspot_entries(hotspots@, i as int));
        }
        c.append("\n");
        assert(c@ =~= c0 + section("### 复杂度热点\n"@, hotspots@.len(), hotspot_entries(hotspots@, hotspots.len() as int)));
    } else {
        assert(c@ =~= c@ + section("### 复杂度热点\n"@, hotspots@.len(), hotspot_entries(hotspots@, hotspots.len() as int)));
    }
}

/// The start of the impact assessment of the context: the risk level and the
/// numbers of breaking changes and affected modules, up to the overall score.
pub open spec fn impact_heading_text(risk: RiskLevel, breaking: nat, affected: nat) -> Seq<char> {
    "### 影响评估\n- 风险级别: "@ + risk_name(risk) + "\n- 破坏性变更数: "@ + decimal_text(breaking)
        + "\n- 受影响模块数: "@ + decimal_text(affected) + "\n- 整体评分: "@
}


/// Builds insights into a project from the structure of its code.
pub struct InsightsGenerator;

/// Methods above which a class may do too much.
pub const MAX_METHODS: usize = 20;

/// Lines above which a function is too long.
pub const MAX_FUNCTION_LINES: usize = 50;

/// Lines above which a long function is a high-severity problem.
pub const VERY_LONG_FUNCTION_LINES: usize = 100;

/// Parameters above which a function takes too many.
pub const MAX_PARAMETERS: usize = 5;

/// Length of a function, in lines.
pub open spec fn function_length(f: FunctionInfo) -> int {
    f.line_end - f.line_start
}

/// Every function of `fs` ends no earlier than it starts.
pub open spec fn lines_ordered(fs: Seq<FunctionInfo>) -> bool {
    forall|i: int| 0 <= i < fs.len() ==> (#[trigger] fs[i]).line_start <= fs[i].line_end
}

/// The risk of a change with `breaking` breaking changes and `affected`
/// affected modules: by the score 10 per breaking change plus 5 per module,
/// critical above 50, high above 30, medium above 10, else low.
pub open spec fn risk_for(breaking: nat, affected: nat) -> RiskLevel {
    let score = 10 * breaking + 5 * affected;
    if score > 50 {
        RiskLevel::Critical
    } else if score > 30 {
        RiskLevel::High
    } else if score > 10 {
        RiskLevel::Medium
    } else {
        RiskLevel::Low
    }
}

/// The single-responsibility violations among the first `k` classes: those with
/// more than 20 methods.
pub open spec fn crowded_classes(classes: Seq<ClassInfo>, k: int) -> Seq<int>
    decreases k,
{
    if k <= 0 {
        Seq::empty()
    } else if classes[k - 1].methods.len() > MAX_METHODS {
        crowded_classes(classes, k - 1).push(k - 1)
    } else {
        crowded_classes(classes, k - 1)
    }
}

/// The functions among the first `k` that are longer than 50 lines.
pub open spec fn long_functions(functions: Seq<FunctionInfo>, k: int) -> Seq<int>
    decreases k,
{
    if k <= 0 {
        Seq::empty()
    } else if function_length(functions[k - 1]) > MAX_FUNCTION_LINES {
        long_functions(functions, k - 1).push(k - 1)
    } else {
        long_functions(functions, k - 1)
    }
}

/// `v` reports that class `c` has too many methods.
pub open spec fn class_violation(c: ClassInfo, v: PatternViolation) -> bool {
    &&& v.pattern_type == ArchitecturalPattern::SingleResponsibility
    &&& v.severity == Severity::Medium
    &&& v.violation_description@ == "类 "@ + c.name@ + " 包含 "@ + decimal_text(c.methods.len() as nat)
        + " 个方法，可能违反单一职责原则"@
    &&& v.location@ == c.name@ + ":"@ + decimal_text(c.line_start as nat)
    &&& v.suggestion@ == "考虑将该类拆分为多个更小、更专注的类"@
}

/// `v` reports that function `f` is too long: a high-severity problem above 100
/// lines.
pub open spec fn function_violation(f: FunctionInfo, v: PatternViolation) -> bool {
    &&& v.pattern_type == ArchitecturalPattern::SingleResponsibility
    &&& v.severity == (if function_length(f) > VERY_LONG_FUNCTION_LINES {
        Severity::High
    } else {
        Severity::Medium
    })
    &&& v.violation_description@ == "函数 "@ + f.name@ + " 包含 "@ + decimal_text(function_length(f) as nat)
        + " 行，过于复杂"@
    &&& v.location@ == f.name@ + ":"@ + decimal_text(f.line_start as nat)
    &&& v.suggestion@ == "考虑将该函数拆分为多个更小的函数"@
}

/// The public functions (visibility `public`) among the first `k` of `fs`.
pub open spec fn public_functions(fs: Seq<FunctionInfo>, k: int) -> Seq<int>
    decreases k,
{
    if k <= 0 {
        Seq::empty()
    } else if fs[k - 1].visibility matches Some(v) && v@ == "public"@ {
        public_functions(fs, k - 1).push(k - 1)
    } else {
        public_functions(fs, k - 1)
    }
}

/// `a` describes public function `f`.
pub open spec fn public_api_of(f: FunctionInfo, a: PublicApi) -> bool {
    &&& a.name@ == f.name@
    &&& a.api_type == ApiType::Function
    &&& a.signature@ == f.name@ + "("@ + debug_list(texts(f.parameters@)) + ")"@
    &&& a.documentation is None
    &&& a.usage_count == 0
}

/// The functions among the first `k` of `fs` with more than 5 parameters or more
/// than 50 lines.
pub open spec fn complex_functions(fs: Seq<FunctionInfo>, k: int) -> Seq<int>
    decreases k,
{
    if k <= 0 {
        Seq::empty()
    } else if fs[k - 1].parameters.len() > MAX_PARAMETERS || function_length(fs[k - 1]) > MAX_FUNCTION_LINES {
        complex_functions(fs, k - 1).push(k - 1)
    } else {
        complex_functions(fs, k - 1)
    }
}

/// The hotspots are exactly the functions with more than 5 parameters or more
/// than 50 lines (however many parameters a long one has), each listed once, in
/// order.
pub proof fn lemma_hotspots_are_complex_functions(fs: Seq<FunctionInfo>, k: int)
    requires
        0 <= k <= fs.len(),
    ensures
        forall|i: int|
            0 <= i < k ==> (complex_functions(fs, k).contains(i) <==> ((#[trigger] fs[i]).parameters.len() > 5
                || fs[i].line_end - fs[i].line_start > 50)),
        forall|a: int, b: int|
            0 <= a < b < complex_functions(fs, k).len() ==> #[trigger] complex_functions(fs, k)[a]
                < #[trigger] complex_functions(fs, k)[b],
        forall|j: int| 0 <= j < complex_functions(fs, k).len() ==> 0 <= #[trigger] complex_functions(fs, k)[j] < k,
    decreases k,
{
    if k > 0 {
        lemma_hotspots_are_complex_functions(fs, k - 1);
        let a = complex_functions(fs, k - 1);
        let b = complex_functions(fs, k);
        assert forall|i: int| 0 <= i < k implies (b.contains(i) <==> ((#[trigger] fs[i]).parameters.len() > 5
            || fs[i].line_end - fs[i].line_start > 50)) by {
            if i < k - 1 {
                if b.contains(i) {
                    let j = choose|j: int| 0 <= j < b.len() && b[j] == i;
                    if j < a.len() {
                        assert(a[j] == b[j]);
                    }
                }
                if a.contains(i) {
                    let j = choose|j: int| 0 <= j < a.len() && a[j] == i;
                    assert(b[j] == a[j]);
                }
            } else {
                if fs[k - 1].parameters.len() > 5 || fs[k - 1].line_end - fs[k - 1].line_start > 50 {
                    assert(b[b.len() - 1] == k - 1);
                } else if b.contains(i) {
                    let j = choose|j: int| 0 <= j < b.len() && b[j] == i;
                }
            }
        }
    }
}

/// Why function `f` is a hotspot.
pub open spec fn hotspot_reasons(f: FunctionInfo) -> Seq<Seq<char>> {
    let a: Seq<Seq<char>> = if f.parameters.len() > MAX_PARAMETERS {
        seq!["参数过多: "@ + decimal_text(f.parameters.len() as nat)]
    } else {
        Seq::empty()
    };
    let b: Seq<Seq<char>> = if function_length(f) > MAX_FUNCTION_LINES {
        seq!["函数过长: "@ + decimal_text(function_length(f) as nat) + " 行"@]
    } else {
        Seq::empty()
    };
    a + b
}

/// What to do about any hotspot.
pub open spec fn hotspot_suggestions() -> Seq<Seq<char>> {
    seq!["考虑使用参数对象模式"@, "将函数拆分为更小的功能单元"@]
}

/// `h` describes hotspot function `f`; its complexity is the lines plus 5 per
/// parameter, cut to 32 bits.
pub open spec fn hotspot_of(f: FunctionInfo, h: ComplexityHotspot) -> bool {
    &&& h.component@ == f.name@
    &&& h.complexity_score == ((function_length(f) + 5 * f.parameters.len()) as u32)
    &&& texts(h.reasons@) == hotspot_reasons(f)
    &&& texts(h.refactoring_suggestions@) == hotspot_suggestions()
}

fn owned(s: &str) -> (r: String)
    ensures
        r@ == s@,
{
    String::from_str(s)
}

impl InsightsGenerator {
    /// The risk of a change with `breaking` breaking changes and `affected`
    /// affected modules.
    pub fn risk_level(breaking: usize, affected: usize) -> (r: RiskLevel)
        ensures
            r == risk_for(breaking as nat, affected as nat),
    {
        let b = breaking as u128;
        let a = affected as u128;
        let score = 10 * b + 5 * a;
        if score > 50 {
            RiskLevel::Critical
        } else if score > 30 {
            RiskLevel::High
        } else if score > 10 {
            RiskLevel::Medium
        } else {
            RiskLevel::Low
        }
    }

    /// The single-responsibility violations of the classes with more than 20
    /// methods, in order.
    pub fn class_violations(classes: &Vec<ClassInfo>) -> (r: Vec<PatternViolation>)
        ensures
            r.len() == crowded_classes(classes@, classes.len() as int).len(),
            forall|j: int|
                #![trigger r@[j]]
                0 <= j < r.len() ==> class_violation(classes@[crowded_classes(classes@, classes.len() as int)[j]], r@[j]),
    {
        let mut out: Vec<PatternViolation> = Vec::new();
        let mut i: usize = 0;
        while i < classes.len()
            invariant
                i <= classes.len(),
                out.len() == crowded_classes(classes@, i as int).len(),
                forall|j: int|
                    #![trigger out@[j]]
                    0 <= j < out.len() ==> class_violation(classes@[crowded_classes(classes@, i as int)[j]], out@[j]),
            decreases classes.len() - i,
        {
            let class = &classes[i];
            let count = class.methods.len();
            if count > MAX_METHODS {
                let mut d = owned("类 ");
                d.append(class.name.as_str());
                d.append(" 包含 ");
                d.append(format_decimal(count as u64).as_str());
                d.append(" 个方法，可能违反单一职责原则");
                let mut loc = class.name.clone();
                loc.append(":");
                loc.append(format_decimal(class.line_start as u64).as_str());
                out.push(
                    PatternViolation {
                        pattern_type: ArchitecturalPattern::SingleResponsibility,
                        violation_description: d,
                        location: loc,
                        severity: Severity::Medium,
                        suggestion: owned("考虑将该类拆分为多个更小、更专注的类"),
                    },
                );
            }
            i = i + 1;
        }
        out
    }

    /// The single-responsibility violations of the functions longer than 50
    /// lines, in order.
    pub fn function_violations(functions: &Vec<FunctionInfo>) -> (r: Vec<PatternViolation>)
        requires
            lines_ordered(functions@),
        ensures
            r.len() == long_functions(functions@, functions.len() as int).len(),
            forall|j: int|
                #![trigger r@[j]]
                0 <= j < r.len() ==> function_violation(functions@[long_functions(functions@, functions.len() as int)[j]], r@[j]),
    {
        let mut out: Vec<PatternViolation> = Vec::new();
        let mut k: usize = 0;
        while k < functions.len()
            invariant
                k <= functions.len(),
                lines_ordered(functions@),
                out.len() == long_functions(functions@, k as int).len(),
                forall|j: int|
                    #![trigger out@[j]]
                    0 <= j < out.len() ==> function_violation(functions@[long_functions(functions@, k as int)[j]], out@[j]),
            decreases functions.len() - k,
        {
            let func = &functions[k];
            assert(functions@[k as int].line_start <= functions@[k as int].line_end);
            let lines = func.line_end - func.line_start;
            if lines > MAX_FUNCTION_LINES {
                let mut d = owned("函数 ");
                d.append(func.name.as_str());
                d.append(" 包含 ");
                d.append(format_decimal(lines as u64).as_str());
                d.append(" 行，过于复杂");
                let mut loc = func.name.clone();
                loc.append(":");
                loc.append(format_decimal(func.line_start as u64).as_str());
                let severity = if lines > VERY_LONG_FUNCTION_LINES {
                    Severity::High
                } else {
                    Severity::Medium
                };
                out.push(
                    PatternViolation {
                        pattern_type: ArchitecturalPattern::SingleResponsibility,
                        violation_description: d,
                        location: loc,
                        severity,
                        suggestion: owned("考虑将该函数拆分为多个更小的函数"),
                    },
                );
            }
            k = k + 1;
        }
        out
    }

    /// The single-responsibility violations of a summary: classes with more than
    /// 20 methods, then functions longer than 50 lines, each in order.
    pub fn detect_pattern_violations(summary: &StructuralSummary) -> (r: Vec<PatternViolation>)
        requires
            lines_ordered(summary.functions@),
        ensures
            r.len() == crowded_classes(summary.classes@, summary.classes.len() as int).len() + long_functions(
                summary.functions@,
                summary.functions.len() as int,
            ).len(),
            forall|j: int|
                #![trigger r@[j]]
                0 <= j < crowded_classes(summary.classes@, summary.classes.len() as int).len() ==> class_violation(
                    summary.classes@[crowded_classes(summary.classes@, summary.classes.len() as int)[j]],
                    r@[j],
                ),
            forall|j: int|
                #![trigger long_functions(summary.functions@, summary.functions.len() as int)[j]]
                0 <= j < long_functions(summary.functions@, summary.functions.len() as int).len() ==> function_violation(
                    summary.functions@[long_functions(summary.functions@, summary.functions.len() as int)[j]],
                    r@[crowded_classes(summary.classes@, summary.classes.len() as int).len() + j],
                ),
    {
        let mut out = Self::class_violations(&summary.classes);
        let mut rest = Self::function_violations(&summary.functions);
        let ghost a = out@;
        let ghost b = rest@;
        out.append(&mut rest);
        assert(out@ == a + b);
        out
    }

    /// The breaking changes from `previous` to `current`: first, in order, each
    /// current function whose parameters differ from those of the last earlier
    /// function of its name; then, in order, each earlier function whose name no
    /// current function has.
    pub fn detect_breaking_changes(current: &StructuralSummary, previous: &StructuralSummary) -> (r: Vec<
        BreakingChange,
    >)
        ensures
            ({
                let cur = current.functions@;
                let prev = previous.functions@;
                let changed = changed_signatures(cur, prev, cur.len() as int);
                let removed = removed_functions(cur, prev, prev.len() as int);
                &&& r.len() == changed.len() + removed.len()
                &&& forall|j: int|
                    #![trigger r@[j]]
                    0 <= j < changed.len() ==> signature_change_of(
                        last_named(prev, cur[changed[j]].name@).unwrap(),
                        cur[changed[j]],
                        r@[j],
                    )
                &&& forall|j: int|
                    #![trigger r@[j]]
                    changed.len() <= j < r.len() ==> removal_of(prev[removed[j - changed.len()]], r@[j])
            }),
    {
        let cur = &current.functions;
        let prev = &previous.functions;
        let mut out: Vec<BreakingChange> = Vec::new();
        let mut i: usize = 0;
        while i < cur.len()
            invariant
                i <= cur.len(),
                out.len() == changed_signatures(cur@, prev@, i as int).len(),
                forall|j: int|
                    #![trigger out@[j]]
                    0 <= j < out.len() ==> signature_change_of(
                        last_named(prev@, cur@[changed_signatures(cur@, prev@, i as int)[j]].name@).unwrap(),
                        cur@[changed_signatures(cur@, prev@, i as int)[j]],
                        out@[j],
                    ),
            decreases cur.len() - i,
        {
            let f = &cur[i];
            match last_function_named(prev, f.name.as_str()) {
                Some(p) => {
                    let pf = &prev[p];
                    if !same_texts(&pf.parameters, &f.parameters) {
                        let mut d = owned("函数 ");
                        d.append(f.name.as_str());
                        d.append(" 的参数从 ");
                        d.append(format_debug_list(&pf.parameters).as_str());
                        d.append(" 改为 ");
                        d.append(format_debug_list(&f.parameters).as_str());
                        out.push(
                            BreakingChange {
                                change_type: BreakingChangeType::ApiSignatureChange,
                                component: f.name.clone(),
                                description: d,
                                affected_consumers: Vec::new(),
                                migration_suggestion: owned("更新所有调用点以匹配新的参数签名"),
                            },
                        );
                    }
                },
                None => {},
            }
            i = i + 1;
        }
        let ghost n_changed = out.len();
        let ghost changed = changed_signatures(cur@, prev@, cur.len() as int);
        let mut k: usize = 0;
        while k < prev.len()
            invariant
                k <= prev.len(),
                n_changed == changed.len(),
                changed == changed_signatures(cur@, prev@, cur.len() as int),
                out.len() == n_changed + removed_functions(cur@, prev@, k as int).len(),
                forall|j: int|
                    #![trigger out@[j]]
                    0 <= j < n_changed ==> signature_change_of(
                        last_named(prev@, cur@[changed[j]].name@).unwrap(),
                        cur@[changed[j]],
                        out@[j],
                    ),
                forall|j: int|
                    #![trigger out@[j]]
                    n_changed <= j < out.len() ==> removal_of(
                        prev@[removed_functions(cur@, prev@, k as int)[j - n_changed]],
                        out@[j],
                    ),
            decreases prev.len() - k,
        {
            let p = &prev[k];
            if !any_function_named(cur, p.name.as_str()) {
                let mut d = owned("函数 ");
                d.append(p.name.as_str());
                d.append(" 被删除");
                out.push(
                    BreakingChange {
                        change_type: BreakingChangeType::ApiRemoval,
                        component: p.name.clone(),
                        description: d,
                        affected_consumers: Vec::new(),
                        migration_suggestion: owned("寻找替代 API 或恢复该函数"),
                    },
                );
            }
            k = k + 1;
        }
        out
    }

    /// The classes of a summary as nodes of the dependency graph, in order, each
    /// located by `line:` and its first line; and an inheritance edge for each
    /// class that extends another.
    pub fn class_dependencies(summary: &StructuralSummary) -> (r: (Vec<DependencyNode>, Vec<DependencyEdge>))
        ensures
            class_graph_of(*summary, r.0@, r.1@),
    {
        let classes = &summary.classes;
        let mut nodes: Vec<DependencyNode> = Vec::new();
        let mut edges: Vec<DependencyEdge> = Vec::new();
        let mut i: usize = 0;
        while i < classes.len()
            invariant
                i <= classes.len(),
                nodes.len() == i,
                forall|k: int|
                    #![trigger nodes@[k]]
                    0 <= k < i ==> {
                        &&& nodes@[k].id@ == classes@[k].name@
                        &&& nodes@[k].name@ == classes@[k].name@
                        &&& nodes@[k].node_type == NodeType::Class
                        &&& nodes@[k].file_path@ == "line:"@ + decimal_text(classes@[k].line_start as nat)
                    },
                edges.len() == extending_classes(classes@, i as int).len(),
                forall|j: int|
                    #![trigger edges@[j]]
                    0 <= j < edges.len() ==> {
                        let c = classes@[extending_classes(classes@, i as int)[j]];
                        &&& edges@[j].from@ == c.name@
                        &&& Some(edges@[j].to@) == (match c.extends {
                            Some(e) => Some(e@),
                            None => None,
                        })
                        &&& edges@[j].dependency_type == DependencyType::Inheritance
                    },
            decreases classes.len() - i,
        {
            let c = &classes[i];
            let mut loc = owned("line:");
            loc.append(format_decimal(c.line_start as u64).as_str());
            nodes.push(
                DependencyNode { id: c.name.clone(), name: c.name.clone(), node_type: NodeType::Class, file_path: loc },
            );
            match &c.extends {
                Some(e) => {
                    edges.push(
                        DependencyEdge {
                            from: c.name.clone(),
                            to: e.clone(),
                            dependency_type: DependencyType::Inheritance,
                        },
                    );
                },
                None => {},
            }
            i = i + 1;
        }
        (nodes, edges)
    }

    /// The context on the project's architecture given to the model, up to the
    /// impact assessment (see `ai_context_text`).
    pub fn ai_context_sections(
        violations: &Vec<PatternViolation>,
        cycles: &Vec<CircularDependency>,
        changes: &Vec<BreakingChange>,
        hotspots: &Vec<ComplexityHotspot>,
    ) -> (r: String)
        ensures
            r@ == ai_context_text(violations@, cycles@, changes@, hotspots@),
    {
        let mut c = owned("## 项目架构洞察\n\n");
        append_violations(&mut c, violations);
        append_cycles(&mut c, cycles);
        append_changes(&mut c, changes);
        append_hotspots(&mut c, hotspots);
        c
    }

    /// The start of the impact assessment (see `impact_heading_text`).
    pub fn impact_heading(risk: RiskLevel, breaking: usize, affected: usize) -> (r: String)
        ensures
            r@ == impact_heading_text(risk, breaking as nat, affected as nat),
    {
        let mut c = owned("### 影响评估\n- 风险级别: ");
        c.append(risk_name_of(risk));
        c.append("\n- 破坏性变更数: ");
        c.append(format_decimal(breaking as u64).as_str());
        c.append("\n- 受影响模块数: ");
        c.append(format_decimal(affected as u64).as_str());
        c.append("\n- 整体评分: ");
        c
    }

    /// The modules the breaking changes affect: each change's component, directly,
    /// needing the change's migration.
    pub fn identify_affected_modules(breaking_changes: &Vec<BreakingChange>) -> (r: Vec<AffectedModule>)
        ensures
            r.len() == breaking_changes.len(),
            forall|i: int|
                #![trigger r@[i]]
                0 <= i < r.len() ==> {
                    &&& r@[i].module@ == breaking_changes@[i].component@
                    &&& r@[i].impact_level == ImpactLevel::Direct
                    &&& texts(r@[i].required_changes@) == seq![breaking_changes@[i].migration_suggestion@]
                },
    {
        let mut out: Vec<AffectedModule> = Vec::new();
        let mut i: usize = 0;
        while i < breaking_changes.len()
            invariant
                i <= breaking_changes.len(),
                out.len() == i,
                forall|j: int|
                    #![trigger out@[j]]
                    0 <= j < i ==> {
                        &&& out@[j].module@ == breaking_changes@[j].component@
                        &&& out@[j].impact_level == ImpactLevel::Direct
                        &&& texts(out@[j].required_changes@) == seq![breaking_changes@[j].migration_suggestion@]
                    },
            decreases breaking_changes.len() - i,
        {
            let change = &breaking_changes[i];
            let mut required: Vec<String> = Vec::new();
            required.push(change.migration_suggestion.clone());
            assert(texts(required@) =~= seq![change.migration_suggestion@]);
            out.push(
                AffectedModule {
                    module: change.component.clone(),
                    impact_level: ImpactLevel::Direct,
                    required_changes: required,
                },
            );
            i = i + 1;
        }
        out
    }

    /// The public functions of a summary (visibility `public`), in order, each as
    /// a function API with its name and parameters as signature, undocumented and unused.
    pub fn analyze_api_surface(summary: &StructuralSummary) -> (r: Vec<PublicApi>)
        ensures
            r.len() == public_functions(summary.functions@, summary.functions.len() as int).len(),
            forall|j: int|
                #![trigger r@[j]]
                0 <= j < r.len() ==> public_api_of(
                    summary.functions@[public_functions(summary.functions@, summary.functions.len() as int)[j]],
                    r@[j],
                ),
    {
        let fs = &summary.functions;
        let mut out: Vec<PublicApi> = Vec::new();
        let mut k: usize = 0;
        while k < fs.len()
            invariant
                k <= fs.len(),
                out.len() == public_functions(fs@, k as int).len(),
                forall|j: int|
                    #![trigger out@[j]]
                    0 <= j < out.len() ==> public_api_of(fs@[public_functions(fs@, k as int)[j]], out@[j]),
            decreases fs.len() - k,
        {
            let f = &fs[k];
            let is_public = match &f.visibility {
                Some(v) => same_text(v.as_str(), "public"),
                None => false,
            };
            if is_public {
                let mut sig = f.name.clone();
                sig.append("(");
                sig.append(format_debug_list(&f.parameters).as_str());
                sig.append(")");
                out.push(
                    PublicApi {
                        name: f.name.clone(),
                        api_type: ApiType::Function,
                        signature: sig,
                        documentation: None,
                        usage_count: 0,
                    },
                );
            }
            k = k + 1;
        }
        out
    }

    /// The functions with more than 5 parameters or more than 50 lines, in order,
    /// with their complexity (lines plus 5 per parameter) and the reasons.
    pub fn identify_quality_hotspots(summary: &StructuralSummary) -> (r: Vec<ComplexityHotspot>)
        requires
            lines_ordered(summary.functions@),
        ensures
            r.len() == complex_functions(summary.functions@, summary.functions.len() as int).len(),
            forall|j: int|
                #![trigger r@[j]]
                0 <= j < r.len() ==> hotspot_of(
                    summary.functions@[complex_functions(summary.functions@, summary.functions.len() as int)[j]],
                    r@[j],
                ),
    {
        let fs = &summary.functions;
        let mut out: Vec<ComplexityHotspot> = Vec::new();
        let mut k: usize = 0;
        while k < fs.len()
            invariant
                k <= fs.len(),
                lines_ordered(fs@),
                out.len() == complex_functions(fs@, k as int).len(),
                forall|j: int|
                    #![trigger out@[j]]
                    0 <= j < out.len() ==> hotspot_of(fs@[complex_functions(fs@, k as int)[j]], out@[j]),
            decreases fs.len() - k,
        {
            let f = &fs[k];
            assert(fs@[k as int].line_start <= fs@[k as int].line_end);
            let lines = f.line_end - f.line_start;
            let params = f.parameters.len();
            if params > MAX_PARAMETERS || lines > MAX_FUNCTION_LINES {
                let total = (lines as u128) + (params as u128) * 5;
                #[verifier::truncate]
                let score = total as u32;
                let mut reasons: Vec<String> = Vec::new();
                if params > MAX_PARAMETERS {
                    let mut m = owned("参数过多: ");
                    m.append(format_decimal(params as u64).as_str());
                    reasons.push(m);
                }
                if lines > MAX_FUNCTION_LINES {
                    let mut m = owned("函数过长: ");
                    m.append(format_decimal(lines as u64).as_str());
                    m.append(" 行");
                    reasons.push(m);
                }
                let mut suggestions: Vec<String> = Vec::new();
                suggestions.push(owned("考虑使用参数对象模式"));
                suggestions.push(owned("将函数拆分为更小的功能单元"));
                proof {
                    assert(texts(suggestions@) =~= hotspot_suggestions());
                    assert(texts(reasons@) =~= hotspot_reasons(fs@[k as int]));
                }
                out.push(
                    ComplexityHotspot {
                        component: f.name.clone(),
                        complexity_score: score,
                        reasons,
                        refactoring_suggestions: suggestions,
                    },
                );
            }
            k = k + 1;
        }
        out
    }
}

} // verus!
