use gitai::project_insights::{
    CircularDependency, ComplexityHotspot, PatternViolation, ApiType, ArchitecturalPattern, BreakingChange, BreakingChangeType, ClassInfo, DependencyType, FunctionInfo,
    ImpactLevel, InsightsGenerator, NodeType, RiskLevel, Severity, StructuralSummary,
};

fn func(name: &str, params: &[&str], start: usize, end: usize, public: bool) -> FunctionInfo {
    FunctionInfo {
        name: name.to_string(),
        parameters: params.iter().map(|p| p.to_string()).collect(),
        line_start: start,
        line_end: end,
        visibility: if public { Some("public".to_string()) } else { None },
    }
}

fn class(name: &str, methods: usize, start: usize, extends: Option<&str>) -> ClassInfo {
    ClassInfo {
        name: name.to_string(),
        methods: (0..methods).map(|i| format!("m{}", i)).collect(),
        line_start: start,
        extends: extends.map(|s| s.to_string()),
    }
}

#[test]
fn risk_grows_with_breaking_changes_and_modules() {
    assert_eq!(InsightsGenerator::risk_level(0, 0), RiskLevel::Low);
    assert_eq!(InsightsGenerator::risk_level(1, 0), RiskLevel::Low);
    assert_eq!(InsightsGenerator::risk_level(1, 1), RiskLevel::Medium);
    assert_eq!(InsightsGenerator::risk_level(3, 1), RiskLevel::High);
    assert_eq!(InsightsGenerator::risk_level(4, 3), RiskLevel::Critical);
}

#[test]
fn crowded_classes_and_long_functions_are_violations() {
    let summary = StructuralSummary {
        functions: vec![func("short", &[], 1, 10, false), func("long", &[], 10, 80, false), func("huge", &[], 1, 200, false)],
        classes: vec![class("Small", 3, 1, None), class("Big", 21, 7, None)],
    };
    let v = InsightsGenerator::detect_pattern_violations(&summary);
    assert_eq!(v.len(), 3);
    assert_eq!(v[0].pattern_type, ArchitecturalPattern::SingleResponsibility);
    assert_eq!(v[0].violation_description, "类 Big 包含 21 个方法，可能违反单一职责原则");
    assert_eq!(v[0].location, "Big:7");
    assert_eq!(v[0].severity, Severity::Medium);
    assert_eq!(v[1].violation_description, "函数 long 包含 70 行，过于复杂");
    assert_eq!(v[1].severity, Severity::Medium);
    assert_eq!(v[2].severity, Severity::High);
    assert_eq!(v[2].location, "huge:1");
}

#[test]
fn breaking_changes_between_summaries() {
    let previous = StructuralSummary {
        functions: vec![func("keep", &["a"], 1, 2, true), func("drop", &[], 3, 4, true), func("same", &["x"], 5, 6, true)],
        classes: vec![],
    };
    let current = StructuralSummary {
        functions: vec![func("keep", &["a", "b"], 1, 2, true), func("same", &["x"], 5, 6, true), func("new", &[], 7, 8, true)],
        classes: vec![],
    };
    let changes = InsightsGenerator::detect_breaking_changes(&current, &previous);
    assert_eq!(changes.len(), 2);
    assert_eq!(changes[0].change_type, BreakingChangeType::ApiSignatureChange);
    assert_eq!(changes[0].component, "keep");
    assert_eq!(changes[0].description, "函数 keep 的参数从 [\"a\"] 改为 [\"a\", \"b\"]");
    assert_eq!(changes[0].migration_suggestion, "更新所有调用点以匹配新的参数签名");
    assert_eq!(changes[1].change_type, BreakingChangeType::ApiRemoval);
    assert_eq!(changes[1].description, "函数 drop 被删除");
    assert!(changes[1].affected_consumers.is_empty());
    let affected = InsightsGenerator::identify_affected_modules(&changes);
    assert_eq!(affected.len(), 2);
    assert_eq!(affected[1].module, "drop");
    assert_eq!(affected[1].impact_level, ImpactLevel::Direct);
    assert_eq!(affected[1].required_changes, vec!["寻找替代 API 或恢复该函数".to_string()]);
}

#[test]
fn no_change_means_no_breaking_change() {
    let s = StructuralSummary { functions: vec![func("f", &["a"], 1, 2, true)], classes: vec![] };
    let t = StructuralSummary { functions: vec![func("f", &["a"], 1, 2, true)], classes: vec![] };
    assert!(InsightsGenerator::detect_breaking_changes(&s, &t).is_empty());
}

#[test]
fn public_functions_make_the_api_surface() {
    let summary = StructuralSummary {
        functions: vec![func("open", &["path", "mode"], 1, 3, true), func("hidden", &[], 4, 5, false)],
        classes: vec![],
    };
    let apis = InsightsGenerator::analyze_api_surface(&summary);
    assert_eq!(apis.len(), 1);
    assert_eq!(apis[0].name, "open");
    assert_eq!(apis[0].api_type, ApiType::Function);
    assert_eq!(apis[0].signature, "open([\"path\", \"mode\"])");
    assert!(apis[0].documentation.is_none());
}

#[test]
fn complex_functions_are_hotspots() {
    let summary = StructuralSummary {
        functions: vec![
            func("simple", &["a"], 1, 5, false),
            func("many", &["a", "b", "c", "d", "e", "f"], 1, 11, false),
            func("both", &["a", "b", "c", "d", "e", "f"], 1, 61, false),
        ],
        classes: vec![],
    };
    let hot = InsightsGenerator::identify_quality_hotspots(&summary);
    assert_eq!(hot.len(), 2);
    assert_eq!(hot[0].component, "many");
    assert_eq!(hot[0].complexity_score, 40);
    assert_eq!(hot[0].reasons, vec!["参数过多: 6".to_string()]);
    assert_eq!(hot[1].reasons, vec!["参数过多: 6".to_string(), "函数过长: 60 行".to_string()]);
    assert_eq!(hot[1].refactoring_suggestions.len(), 2);
}

#[test]
fn classes_become_nodes_and_inheritance_edges() {
    let summary = StructuralSummary {
        functions: vec![],
        classes: vec![class("Base", 1, 3, None), class("Child", 1, 9, Some("Base"))],
    };
    let (nodes, edges) = InsightsGenerator::class_dependencies(&summary);
    assert_eq!(nodes.len(), 2);
    assert_eq!(nodes[1].id, "Child");
    assert_eq!(nodes[1].node_type, NodeType::Class);
    assert_eq!(nodes[1].file_path, "line:9");
    assert_eq!(edges.len(), 1);
    assert_eq!(edges[0].from, "Child");
    assert_eq!(edges[0].to, "Base");
    assert_eq!(edges[0].dependency_type, DependencyType::Inheritance);
    let _unused: Option<BreakingChange> = None;
}

#[test]
fn context_for_the_model_lists_what_was_found() {
    assert_eq!(InsightsGenerator::ai_context_sections(&vec![], &vec![], &vec![], &vec![]), "## 项目架构洞察\n\n");
    let violation = PatternViolation {
        pattern_type: ArchitecturalPattern::SingleResponsibility,
        violation_description: "too big".to_string(),
        location: "A:1".to_string(),
        severity: Severity::Medium,
        suggestion: "split".to_string(),
    };
    let cycle = CircularDependency { cycle: vec!["a".to_string(), "b".to_string(), "a".to_string()], severity: Severity::High };
    let change = BreakingChange {
        change_type: BreakingChangeType::ApiRemoval,
        component: "f".to_string(),
        description: "gone".to_string(),
        affected_consumers: vec!["x".to_string()],
        migration_suggestion: "restore".to_string(),
    };
    let hotspot = ComplexityHotspot {
        component: "g".to_string(),
        complexity_score: 40,
        reasons: vec!["r1".to_string(), "r2".to_string()],
        refactoring_suggestions: vec!["s1".to_string(), "s2".to_string()],
    };
    let text = InsightsGenerator::ai_context_sections(&vec![violation], &vec![cycle], &vec![change], &vec![hotspot]);
    let expected = "## 项目架构洞察\n\n### 架构模式违规\n- **SingleResponsibility**: too big (位置: A:1)\n  建议: split\n\n### 循环依赖\n- 循环: a -> b -> a (严重性: High)\n\n### 破坏性变更\n- **ApiRemoval**: gone\n  影响: [\"x\"]\n  建议: restore\n\n### 复杂度热点\n- **g** (复杂度: 40)\n  原因: r1, r2\n  建议: s1; s2\n\n";
    assert_eq!(text, expected);
    assert_eq!(
        InsightsGenerator::impact_heading(RiskLevel::High, 3, 1),
        "### 影响评估\n- 风险级别: High\n- 破坏性变更数: 3\n- 受影响模块数: 1\n- 整体评分: "
    );
}

fn cycles_of(classes: Vec<ClassInfo>) -> Vec<Vec<String>> {
    let summary = StructuralSummary { functions: vec![], classes };
    let graph = InsightsGenerator::build_dependency_graph(&summary);
    assert!(graph.circular_dependencies.iter().all(|c| c.severity == Severity::High));
    graph.circular_dependencies.into_iter().map(|c| c.cycle).collect()
}

fn names(v: &[&str]) -> Vec<String> {
    v.iter().map(|s| s.to_string()).collect()
}

#[test]
fn inheritance_chain_has_no_cycle() {
    let summary = StructuralSummary {
        functions: vec![],
        classes: vec![class("A", 1, 1, Some("B")), class("B", 1, 5, Some("C")), class("C", 1, 9, None)],
    };
    let graph = InsightsGenerator::build_dependency_graph(&summary);
    assert_eq!(graph.nodes.len(), 3);
    assert_eq!(graph.edges.len(), 2);
    assert!(graph.circular_dependencies.is_empty());
}

#[test]
fn mutual_inheritance_is_reported_from_both_ends() {
    let found = cycles_of(vec![class("A", 1, 1, Some("B")), class("B", 1, 5, Some("A"))]);
    assert_eq!(found, vec![names(&["A", "B"]), names(&["B", "A"])]);
}

#[test]
fn class_extending_itself_is_a_cycle() {
    let found = cycles_of(vec![class("A", 1, 1, Some("A")), class("B", 1, 5, None)]);
    assert_eq!(found, vec![names(&["A"])]);
}

#[test]
fn path_into_a_cycle_is_reported_from_its_start() {
    let found = cycles_of(vec![
        class("C", 1, 1, Some("A")),
        class("A", 1, 5, Some("B")),
        class("B", 1, 9, Some("A")),
        class("D", 1, 13, Some("E")),
    ]);
    assert_eq!(found, vec![names(&["C", "A", "B"]), names(&["A", "B"]), names(&["B", "A"])]);
}

#[test]
fn one_domain_layer_is_identified() {
    let summary = StructuralSummary { functions: vec![], classes: vec![] };
    let layers = InsightsGenerator::identify_architectural_layers(&summary);
    assert_eq!(layers.len(), 1);
    assert_eq!(layers[0].name, "Domain");
    assert!(layers[0].components.is_empty());
    assert_eq!(layers[0].allowed_dependencies, vec!["Infrastructure".to_string()]);
    assert!(layers[0].violations.is_empty());
}
