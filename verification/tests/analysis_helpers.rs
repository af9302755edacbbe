use gitai::mcp::services::analysis::{directory_message, directory_totals, CodeSummary};
use gitai::mcp::services::dependency::{
    convert_to_ascii, convert_to_mermaid, get_node_display_name, graph_output_format, infer_language_from_path, is_supported_code_file,
    output_message, GraphFormat,
    is_test_directory, is_test_file, DependencyGraph, EdgeType, GraphEdge, GraphNode, NodeKind,
};
use gitai::metrics::{merge_snapshot_order, order_by_time, snapshot_file_name, snapshots_to_keep, TrendVisualizer};
use gitai::resource_manager::{
    default_cache, default_network, default_sources, resource_cache_dir, resource_config_from_sections,
    should_update_at, cache_entry_expired, grammar_url, is_dir_empty, on_missing_grammar, on_missing_rules,
    refresh_first, rules_sources, update_languages,
};
use gitai::review::analyzer::SupportedLanguage;
use gitai::review_engine::{SimpleReviewer, Severity as ReviewSeverity};
use gitai::rule_manager::{remote_git_url, rule_has_required_keys, rules_need_update, validation_rate_ok};
use gitai::scan::{
    create_finding_from_result, exit_error_cuts_cleanly, exit_error_message, findings_from_results, harmless_exit, known_rule_languages,
    opengrep_args, opengrep_json_part, rule_config_dirs, rules_info_from_meta, rules_info_from_text, OpengrepItem, RawRulesMeta,
    check_scan_tool, scan_summary, Finding as ScanFinding,
};

fn item() -> OpengrepItem {
    OpengrepItem {
        message: None,
        path: None,
        line: None,
        col: None,
        check_id: None,
        severity: None,
        lines: None,
        fix: None,
    }
}

#[test]
fn code_files_are_known_by_extension() {
    assert!(is_supported_code_file("rs"));
    assert!(is_supported_code_file("HPP"));
    assert!(!is_supported_code_file("txt"));
}

#[test]
fn test_files_and_directories_are_recognised() {
    assert!(is_test_file("src/foo_test.rs"));
    assert!(is_test_file("web/App.spec.ts"));
    assert!(is_test_file("Test_Helpers.py"));
    assert!(is_test_file("pkg/tests.rs"));
    assert!(!is_test_file("src/tests/helper.rs"));
    assert!(is_test_file("x/tests/.."));
    assert!(!is_test_file("src/main.rs"));
    assert!(is_test_directory("a/__tests__"));
    assert!(is_test_directory("a/Integration_Tests"));
    assert!(!is_test_directory("src"));
    assert!(!is_test_directory("/"));
}

#[test]
fn language_comes_from_the_extension() {
    assert_eq!(infer_language_from_path("x.HPP"), Ok(SupportedLanguage::Cpp));
    assert_eq!(infer_language_from_path("dir/a.h"), Ok(SupportedLanguage::C));
    assert_eq!(infer_language_from_path("Makefile"), Err("无法获取文件扩展名".to_string()));
    assert_eq!(infer_language_from_path("a.txt"), Err("不支持的文件扩展名: txt".to_string()));
}

#[test]
fn node_names_show_their_last_part() {
    assert_eq!(get_node_display_name("func:src/lib.rs::main"), "main");
    assert_eq!(get_node_display_name("class:src/a/b.rs"), "b.rs");
    assert_eq!(get_node_display_name("a:::b"), ":b");
    assert_eq!(get_node_display_name(""), "");
}

#[test]
fn mermaid_chart_of_a_small_graph() {
    let graph = DependencyGraph {
        nodes: vec![
            GraphNode { id: "file:src/a.rs".to_string(), kind: NodeKind::File, name: "src/a.rs".to_string() },
            GraphNode { id: "func:src/a.rs::run".to_string(), kind: NodeKind::Function, name: "run".to_string() },
        ],
        edges: vec![
            GraphEdge {
                from: "file:src/a.rs".to_string(),
                to: "func:src/a.rs::run".to_string(),
                edge_type: EdgeType::Contains,
                notes: Some("defines".to_string()),
            },
            GraphEdge {
                from: "func:src/a.rs::run".to_string(),
                to: "missing".to_string(),
                edge_type: EdgeType::Calls,
                notes: None,
            },
        ],
    };
    let expected = "flowchart TD\n    %% Generated by GitAI Dependency Service\n\n    node0[a.rs]\n    node1(run)\n\n    node0-->|defines| node1\n\n    %% Styles\n    classDef fileNode fill:#e1f5fe,stroke:#01579b,stroke-width:2px\n    classDef functionNode fill:#f3e5f5,stroke:#4a148c,stroke-width:2px\n    classDef classNode fill:#fff3e0,stroke:#e65100,stroke-width:2px\n    classDef moduleNode fill:#e8f5e8,stroke:#2e7d32,stroke-width:2px\n    class node0 fileNode\n    class node1 functionNode\n";
    assert_eq!(convert_to_mermaid(&graph), expected);
}

#[test]
fn opengrep_output_is_read_from_its_json() {
    assert_eq!(opengrep_json_part("header\n{\"results\":[]}"), Some("{\"results\":[]}".to_string()));
    assert_eq!(opengrep_json_part("   \n"), None);
    assert_eq!(opengrep_json_part("no json"), None);
}

#[test]
fn finding_defaults_fill_missing_fields() {
    let f = create_finding_from_result(&item());
    assert_eq!(f.title, "Unknown issue");
    assert_eq!(f.message, "Unknown issue");
    assert_eq!(f.file_path, "");
    assert_eq!(f.line, 0);
    assert_eq!(f.severity, "WARNING");
    assert!(f.rule_id.is_none());
    let mut full = item();
    full.message = Some("Hard-coded key".to_string());
    full.path = Some("src/a.rs".to_string());
    full.line = Some(12);
    full.col = Some(4);
    full.check_id = Some("rule.key".to_string());
    full.severity = Some("ERROR".to_string());
    full.fix = Some("use env".to_string());
    let fs = findings_from_results(&vec![full, item()]);
    assert_eq!(fs.len(), 2);
    assert_eq!(fs[0].title, "Hard-coded key");
    assert_eq!(fs[0].line, 12);
    assert_eq!(fs[0].column, 4);
    assert_eq!(fs[0].rule_id.as_deref(), Some("rule.key"));
    assert_eq!(fs[0].remediation.as_deref(), Some("use env"));
    assert_eq!(fs[1].severity, "WARNING");
}

#[test]
fn rules_info_falls_back_to_the_directory() {
    let info = rules_info_from_meta("/rules".to_string(), None);
    assert_eq!(info.dir, "/rules");
    assert_eq!(info.total_rules, 0);
    let info = rules_info_from_meta(
        "/rules".to_string(),
        Some(RawRulesMeta {
            sources: Some(vec![Some("s".to_string()), None, Some("t".to_string())]),
            total_rules: Some(7),
            updated_at: None,
        }),
    );
    assert_eq!(info.sources, vec!["s".to_string(), "t".to_string()]);
    assert_eq!(info.total_rules, 7);
}

#[test]
fn rules_info_is_read_from_the_metadata_text() {
    let info = rules_info_from_text(
        "/r".to_string(),
        Some(r#"{"sources": ["a", 3, "b"], "total_rules": 12, "updated_at": "2024-01-01"}"#),
    );
    assert_eq!(info.dir, "/r");
    assert_eq!(info.sources, vec!["a".to_string(), "b".to_string()]);
    assert_eq!(info.total_rules, 12);
    assert_eq!(info.updated_at.as_deref(), Some("2024-01-01"));
    let partial = rules_info_from_text("/r".to_string(), Some(r#"{"sources": "x", "total_rules": -1}"#));
    assert!(partial.sources.is_empty());
    assert_eq!(partial.total_rules, 0);
    assert_eq!(partial.updated_at, None);
    let broken = rules_info_from_text("/r".to_string(), Some("not json"));
    assert!(broken.sources.is_empty() && broken.total_rules == 0 && broken.updated_at.is_none());
    let missing = rules_info_from_text("/r".to_string(), None);
    assert_eq!(missing.total_rules, 0);
}

#[test]
fn snapshot_storage_decisions() {
    assert_eq!(snapshot_file_name("feature/x:y\\z"), "snapshots_feature_x_y_z.jsonl");
    assert_eq!(snapshots_to_keep(&vec![1, 5, 3], 2), vec![1, 2]);
    assert_eq!(order_by_time(&vec![3, 1, 3, 2]), vec![1, 3, 0, 2]);
    let commits = vec!["a".to_string(), "b".to_string(), "a".to_string(), "b".to_string()];
    assert_eq!(merge_snapshot_order(&vec![3, 1, 3, 2], &commits), vec![1, 0]);
    let repeated = vec!["a".to_string(), "b".to_string(), "a".to_string()];
    assert_eq!(merge_snapshot_order(&vec![1, 2, 3], &repeated), vec![0, 1]);
    assert_eq!(merge_snapshot_order(&vec![3, 2, 1], &repeated), vec![2, 1]);
    let _ = TrendVisualizer::new();
}

#[test]
fn rule_manager_decisions() {
    assert_eq!(remote_git_url("https://api.github.com/repos/x/contents"), "https://api.github.com/repos/x.git");
    assert!(!rules_need_update(Some("a"), Some("a"), true));
    assert!(rules_need_update(Some("b"), Some("a"), true));
    assert!(rules_need_update(Some("b"), None, true));
    assert!(rules_need_update(None, Some("a"), false));
    assert!(!rules_need_update(None, None, true));
    assert!(validation_rate_ok(4, 5));
    assert!(!validation_rate_ok(3, 5));
    assert!(validation_rate_ok(0, 0));
    let keys = vec!["id".to_string(), "rule".to_string(), "language".to_string()];
    assert!(rule_has_required_keys(&keys));
    assert!(!rule_has_required_keys(&keys[..2].to_vec()));
}

#[test]
fn resource_defaults_and_updates() {
    let s = default_sources();
    assert_eq!(s.rules_url, "https://github.com/nehcuh/gitai-rules.git");
    assert_eq!(s.update_check_interval, 86400);
    assert_eq!(default_network().timeout, 30);
    assert_eq!(default_cache().ttl, 604800);
    let cfg = resource_config_from_sections(None, None, None);
    assert_eq!(cfg.cache.path, "~/.cache/gitai");
    assert!(should_update_at(true, Some(100), 200, 50));
    assert!(!should_update_at(true, Some(100), 120, 50));
    assert!(should_update_at(true, None, 0, 50));
    assert!(!should_update_at(false, None, 0, 50));
    let mut c = default_cache();
    c.path = "/tmp/gitai-cache".to_string();
    assert_eq!(resource_cache_dir(&c), "/tmp/gitai-cache");
}

#[test]
fn simple_review_checks_added_lines() {
    let long_line = format!("+{}", "x".repeat(101));
    let lines = vec!["+let password = 1;".to_string(), "-let token = 2;".to_string(), long_line];
    let results = SimpleReviewer::new().review(&lines);
    assert_eq!(results.len(), 2);
    assert_eq!(results[0].title, "检测到硬编码凭证");
    assert_eq!(results[0].severity, ReviewSeverity::Error);
    assert_eq!(results[1].title, "行长度过长");
    let clean = SimpleReviewer::new().review(&vec!["+fn main() {}".to_string()]);
    assert_eq!(clean.len(), 1);
    assert_eq!(clean[0].title, "代码质量良好");
    let wide = format!("+{}", "字".repeat(34));
    assert_eq!(SimpleReviewer::new().review(&vec![wide])[0].title, "行长度过长");
}

#[test]
fn opengrep_is_run_with_its_settings() {
    assert_eq!(
        opengrep_args(60, 0, &vec!["/r/java".to_string()]),
        vec!["--json", "--quiet", "--timeout=60", "--config=/r/java"]
    );
    assert_eq!(opengrep_args(5, 4, &Vec::new()), vec!["--json", "--quiet", "--timeout=5", "--jobs=4"]);
}

#[test]
fn rule_directories_for_a_scan() {
    assert_eq!(known_rule_languages().len(), 13);
    assert_eq!(rule_config_dirs("/r", Some("go"), true, &Vec::new()), vec!["/r/go"]);
    assert_eq!(rule_config_dirs("/r", Some("go"), false, &Vec::new()), vec!["/r"]);
    assert_eq!(rule_config_dirs("/r", None, false, &Vec::new()), vec!["/r"]);
    assert_eq!(
        rule_config_dirs("/r", None, false, &vec!["java".to_string(), "rust".to_string()]),
        vec!["/r/java", "/r/rust"]
    );
}

#[test]
fn opengrep_exit_status_is_judged() {
    assert!(harmless_exit(2, "  "));
    assert!(harmless_exit(2, "No rules found"));
    assert!(!harmless_exit(2, "fatal"));
    assert!(!harmless_exit(1, ""));
    assert_eq!(exit_error_message(1, "  boom \n", ""), "boom");
    assert_eq!(exit_error_message(-1, "", ""), "OpenGrep exited with status -1 (no stderr)");
    assert_eq!(
        exit_error_message(3, "", "a\nb\nc\nd\ne\nf\n"),
        "OpenGrep exited with status 3 (no stderr). stdout: a | b | c | d | e"
    );
}

#[test]
fn dependency_graph_formats() {
    assert_eq!(graph_output_format(None, None), Ok(GraphFormat::Json));
    assert_eq!(graph_output_format(Some("Mermaid"), Some("dot")), Ok(GraphFormat::Mermaid));
    assert_eq!(graph_output_format(None, Some("ASCII")), Ok(GraphFormat::Ascii));
    assert_eq!(graph_output_format(Some("png"), None), Err("不支持的格式: png".to_string()));
    assert_eq!(output_message(GraphFormat::Dot), "DOT 格式依赖图生成成功");
}

#[test]
fn analysis_file_filters() {
    use_analysis_filters();
}

fn use_analysis_filters() {
    use_filters(gitai::mcp::services::analysis::extensions_for(Some("cpp")));
    assert!(gitai::mcp::services::analysis::extensions_for(Some("cobol")).is_empty());
    assert_eq!(gitai::mcp::services::analysis::extensions_for(None).len(), 13);
    assert!(gitai::mcp::services::analysis::is_skipped_directory("node_modules"));
    assert!(!gitai::mcp::services::analysis::is_skipped_directory("src"));
    assert!(gitai::mcp::services::analysis::is_analyzed_file("hxx", Some("cpp")));
    assert!(!gitai::mcp::services::analysis::is_analyzed_file("rs", Some("cpp")));
    assert!(gitai::mcp::services::analysis::is_analyzed_file("rs", None));
}

fn use_filters(exts: Vec<String>) {
    assert_eq!(exts, vec!["cpp", "cc", "cxx", "hpp", "hxx"]);
}

#[test]
fn ascii_listing_sorts_nodes_and_edges() {
    let node = |id: &str, kind: NodeKind, name: &str| GraphNode { id: id.to_string(), kind, name: name.to_string() };
    let edge = |from: &str, to: &str, edge_type: EdgeType| GraphEdge {
        from: from.to_string(),
        to: to.to_string(),
        edge_type,
        notes: None,
    };
    let graph = DependencyGraph {
        nodes: vec![
            node("file:src/a.rs", NodeKind::File, "src/a.rs"),
            node("func:src/a.rs::run", NodeKind::Function, "run"),
            node("class:src/b.rs::B", NodeKind::Class, "B"),
        ],
        edges: vec![
            edge("file:src/a.rs", "func:src/a.rs::run", EdgeType::Contains),
            edge("func:src/a.rs::run", "missing", EdgeType::Calls),
            edge("class:src/b.rs::B", "file:src/a.rs", EdgeType::DependsOn),
            edge("file:src/a.rs", "func:src/a.rs::run", EdgeType::Imports),
        ],
    };
    let text = convert_to_ascii(&graph, "avg_degree: 1.33, cycles: 0, critical: 0\n\n");
    let expected = "# Dependency Graph (ASCII)\nnodes: 3, edges: 4\navg_degree: 1.33, cycles: 0, critical: 0\n\n\
[Nodes]\n  N1: class B\n  N2: file src/a.rs\n  N3: fn run()\n\n\
[Edges]\n  N1 -[DEPENDS]-> N2\n  N2 -[CONTAINS]-> N3\n  N2 -[IMPORTS]-> N3\n  N3 -[CALLS]-> missing\n";
    assert_eq!(text, expected);
}

fn scan_hit(title: &str, line: usize) -> ScanFinding {
    ScanFinding {
        title: title.to_string(),
        file_path: "src/x.rs".to_string(),
        line,
        column: 1,
        severity: "ERROR".to_string(),
        rule_id: None,
        code_snippet: None,
        message: "m".to_string(),
        remediation: None,
    }
}

#[test]
fn scan_tool_must_be_opengrep() {
    assert!(check_scan_tool("opengrep").is_ok());
    assert!(check_scan_tool("auto").is_ok());
    assert_eq!(check_scan_tool("semgrep"), Err("不支持的扫描工具: semgrep".to_string()));
}

#[test]
fn scan_summary_lists_five_findings_then_counts_the_rest() {
    assert_eq!(scan_summary(&vec![]), "  ✅ 未发现问题\n");
    assert_eq!(scan_summary(&vec![scan_hit("a", 3)]), "  发现问题: 1\n    - a (src/x.rs:3)\n");
    let many: Vec<ScanFinding> = (1..=7).map(|i| scan_hit(&format!("f{}", i), i)).collect();
    let text = scan_summary(&many);
    assert!(text.starts_with("  发现问题: 7\n    - f1 (src/x.rs:1)\n"));
    assert!(text.contains("    - f5 (src/x.rs:5)\n"));
    assert!(!text.contains("f6"));
    assert!(text.ends_with("    ... 还有 2 个问题\n"));
}

#[test]
fn resource_fetching_decisions() {
    assert!(refresh_first(true, false));
    assert!(!refresh_first(true, true));
    assert!(!refresh_first(false, false));
    assert_eq!(on_missing_rules(true), Err("No cached rules found in offline mode".to_string()));
    assert_eq!(on_missing_rules(false), Ok(()));
    assert_eq!(on_missing_grammar(true, "go"), Err("No cached grammar found for go in offline mode".to_string()));
    assert_eq!(
        rules_sources("https://a/rules.git", &vec!["https://m1".to_string(), "https://m2".to_string()]),
        vec!["https://a/rules.git".to_string(), "https://m1/rules".to_string(), "https://m2/rules".to_string()]
    );
    assert_eq!(grammar_url("https://ts", "rust"), "https://ts/rust");
    assert_eq!(update_languages(false), vec!["rust", "python", "javascript", "go", "java"]);
    assert!(update_languages(true).is_empty());
    assert!(cache_entry_expired(100, 10, 50));
    assert!(!cache_entry_expired(100, 60, 50));
    assert!(is_dir_empty(&vec![".metadata.json".to_string()]));
    assert!(is_dir_empty(&vec![]));
    assert!(!is_dir_empty(&vec![".git".to_string(), "rules.yml".to_string()]));
}

fn summary(total: usize, code: usize, comment: usize, blank: usize, complexity: u32) -> CodeSummary {
    CodeSummary { total_lines: total, code_lines: code, comment_lines: comment, blank_lines: blank, complexity_score: complexity }
}

#[test]
fn directory_totals_add_up_files_and_count_languages() {
    let files = vec![
        (summary(10, 7, 2, 1, 4), "rust".to_string()),
        (summary(20, 15, 3, 2, 6), "python".to_string()),
        (summary(5, 4, 0, 1, 1), "rust".to_string()),
    ];
    let t = directory_totals(&files, 4);
    assert_eq!(t.summary.total_lines, 35);
    assert_eq!(t.summary.code_lines, 26);
    assert_eq!(t.summary.comment_lines, 5);
    assert_eq!(t.summary.blank_lines, 4);
    assert_eq!(t.summary.complexity_score, 11);
    assert_eq!(t.average_complexity, 2);
    assert_eq!(t.language_counts, vec![("rust".to_string(), 2), ("python".to_string(), 1)]);
    let none = directory_totals(&Vec::new(), 0);
    assert_eq!(none.summary.total_lines, 0);
    assert_eq!(none.average_complexity, 0);
    assert!(none.language_counts.is_empty());
}

#[test]
fn directory_message_says_how_many_files() {
    assert_eq!(directory_message(0), "目录中未找到可分析的代码文件");
    assert_eq!(directory_message(3), "目录分析完成，共分析 3 个文件");
}

#[test]
fn long_exit_reports_are_cut_to_500_bytes() {
    let stdout = format!("{}\n", "x".repeat(600));
    assert!(exit_error_cuts_cleanly(2, "", &stdout));
    let m = exit_error_message(2, "", &stdout);
    assert_eq!(m.len(), 500);
    assert!(m.starts_with("OpenGrep exited with status 2 (no stderr). stdout: xxx"));
    let err = "e".repeat(700);
    assert_eq!(exit_error_message(2, &err, &stdout).len(), 700);
    let split = format!("{}é{}", "x".repeat(448), "y".repeat(100));
    assert!(!exit_error_cuts_cleanly(1, "", &split));
    assert!(exit_error_cuts_cleanly(1, "boom", &split));
}
