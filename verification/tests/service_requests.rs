use gitai::mcp::services::scan::{resolve_scan_path, scan_path_candidates, scan_path_missing};
use gitai::mcp::server::{method_not_found_message, rpc_error_of, server_method, server_tools, ServerMethod, ToolFailure};
use gitai::mcp::manager::{service_kind_named, ServiceKind};
use gitai::mcp_bridge::{bridge_call, bridge_tool_names, unknown_tool_message, BridgeCall};
use gitai::mcp_bridge::{commit_reply, diff_reply, review_reply, scan_reply, status_reply, status_text, ToolReply};
use gitai::review::converter::convert_scan_findings;
use gitai::mcp::registry::RegistryError;
use gitai::mcp::services::commit::{review_results_of, CommitParams, CommitService};
use gitai::mcp::services::deviation::{DeviationParams, DeviationService};
use gitai::mcp::services::review::{
    analysis_languages, convert_finding as convert_review_finding, enhanced_message, ReviewParams, ReviewService,
    Severity as ReviewServiceSeverity,
};
use gitai::mcp::services::scan::{
    check_tool, convert_findings, count_by_severity, scan_outcome, ScanParams, ScanService, Severity,
};
use gitai::review::types::{Finding as ReviewFinding, Severity as ReviewSeverity};
use gitai::scan::Finding as ScanFinding;

fn scan_finding(severity: &str, rule: Option<&str>) -> ScanFinding {
    ScanFinding {
        title: "t".to_string(),
        file_path: "a.rs".to_string(),
        line: 3,
        column: 1,
        severity: severity.to_string(),
        rule_id: rule.map(|s| s.to_string()),
        code_snippet: Some("x".to_string()),
        message: "m".to_string(),
        remediation: Some("fix".to_string()),
    }
}

#[test]
fn scan_service_defaults_and_overrides() {
    let s = ScanService::new(None);
    assert_eq!(s.default_tool, "opengrep");
    assert_eq!(s.default_timeout, 300);
    let params = ScanParams { path: ".".to_string(), tool: None, lang: None, timeout: Some(30) };
    assert_eq!(s.effective_tool(&params), "opengrep");
    assert_eq!(s.effective_timeout(&params), 30);
    let s = ScanService::new(Some(("semgrep".to_string(), 60)));
    assert_eq!(s.effective_timeout(&ScanParams { path: ".".to_string(), tool: None, lang: None, timeout: None }), 60);
    assert!(check_tool("opengrep").is_ok());
    assert_eq!(check_tool("semgrep"), Err("不支持的扫描工具: semgrep".to_string()));
}

#[test]
fn scan_findings_are_reported_and_counted() {
    let fs = convert_findings(&vec![
        scan_finding("ERROR", Some("r1")),
        scan_finding("warning", None),
        scan_finding("Error", None),
    ]);
    assert_eq!(fs[0].severity, Severity::Error);
    assert_eq!(fs[0].rule_id, "r1");
    assert_eq!(fs[1].severity, Severity::Warning);
    assert_eq!(fs[1].rule_id, "unknown");
    assert_eq!(fs[2].severity, Severity::Info);
    assert_eq!(fs[0].description, "发现安全问题的代码段");
    assert!(fs[0].suggestion.is_none());
    let c = count_by_severity(&fs);
    assert_eq!((c.error, c.warning, c.info), (1, 1, 1));
}

#[test]
fn scan_outcome_messages() {
    assert_eq!(scan_outcome(&None, 2), (true, "扫描完成，发现 2 个问题".to_string()));
    assert_eq!(scan_outcome(&Some("boom".to_string()), 1), (true, "扫描完成，发现 1 个问题（有警告: boom）".to_string()));
    assert_eq!(scan_outcome(&Some("boom".to_string()), 0), (false, "扫描完成，但有错误: boom".to_string()));
}

#[test]
fn review_service_settings() {
    let svc = ReviewService::new(None);
    assert_eq!(svc.default_config.format, "text");
    assert!(!svc.default_config.tree_sitter);
    let params = ReviewParams {
        path: None,
        tree_sitter: Some(true),
        security_scan: None,
        issue_ids: Some(vec!["7".to_string()]),
        scan_tool: Some("opengrep".to_string()),
        deviation_analysis: None,
        format: Some("json".to_string()),
    };
    let c = svc.review_config_for(&params);
    assert!(c.tree_sitter);
    assert!(!c.security_scan);
    assert_eq!(c.issue_ids, vec!["7".to_string()]);
    assert_eq!(c.scan_tool.as_deref(), Some("opengrep"));
    assert_eq!(c.format, "json");
    let svc = ReviewService::new(Some(("markdown".to_string(), true, true)));
    assert!(svc.default_config.security_scan);
    assert_eq!(svc.default_config.format, "markdown");
}

#[test]
fn review_findings_map_severity() {
    let f = ReviewFinding {
        title: "x".to_string(),
        severity: ReviewSeverity::High,
        file_path: Some("a.rs".to_string()),
        line: Some(2),
        column: None,
        code_snippet: None,
        message: "msg".to_string(),
        rule_id: None,
        recommendation: Some("do".to_string()),
    };
    let g = convert_review_finding(&f);
    assert_eq!(g.severity, ReviewServiceSeverity::Error);
    assert_eq!(g.description, "msg");
    assert_eq!(g.suggestion.as_deref(), Some("do"));
}

#[test]
fn several_languages_are_told_by_detail_keys() {
    let keys: Vec<String> = ["rust_functions", "python_functions", "rust_classes", "review_result"]
        .iter()
        .map(|s| s.to_string())
        .collect();
    assert_eq!(analysis_languages(&keys), Some(vec!["rust".to_string(), "python".to_string()]));
    let one: Vec<String> = ["rust_functions", "tree_sitter"].iter().map(|s| s.to_string()).collect();
    assert_eq!(analysis_languages(&one), None);
    let doubled: Vec<String> = ["a_functions_functions", "b_functions"].iter().map(|s| s.to_string()).collect();
    assert_eq!(analysis_languages(&doubled), Some(vec!["a".to_string(), "b".to_string()]));
    assert_eq!(enhanced_message("done", Some("rust, python")), "done (多语言项目：rust, python)");
    assert_eq!(enhanced_message("done", None), "done");
}

#[test]
fn commit_service_settings_and_review_results() {
    let svc = CommitService::new(Some((true, false, true)));
    let params = CommitParams {
        message: Some("feat: x".to_string()),
        issue_ids: None,
        add_all: None,
        review: Some(true),
        tree_sitter: None,
        dry_run: Some(true),
    };
    let c = svc.commit_config_for(&params);
    assert_eq!(c.message.as_deref(), Some("feat: x"));
    assert!(c.add_all && c.review && c.tree_sitter && c.dry_run);
    let r = review_results_of(0, 2, Some("report".to_string()));
    assert_eq!(r.score, Some(60));
    assert_eq!(r.findings, vec!["Issue 1".to_string(), "Issue 2".to_string()]);
    assert_eq!(r.recommendations, vec!["report".to_string()]);
    assert_eq!(review_results_of(1, 3, None).score, Some(30));
    assert_eq!(review_results_of(0, 0, None).score, Some(80));
}

#[test]
fn deviation_needs_issues() {
    let svc = DeviationService::new();
    let none = svc.analyze_deviation(&DeviationParams { issue_ids: vec![], diff: None });
    assert!(matches!(none, Err(RegistryError::InvalidParameters(ref m)) if m == "缺少 issue_ids 参数"));
    let r = svc.analyze_deviation(&DeviationParams { issue_ids: vec!["1".to_string()], diff: None }).unwrap();
    assert_eq!(r.match_score, 50);
    assert_eq!(r.matched_issues, vec!["1".to_string()]);
}

fn no_args() -> gitai::mcp_bridge::BridgeArgs {
    gitai::mcp_bridge::BridgeArgs {
        message: None,
        auto_stage: None,
        tree_sitter: None,
        issue_id: None,
        depth: None,
        focus: None,
        language: None,
        format: None,
        path: None,
        full_scan: None,
        update_rules: None,
        detailed: None,
        staged: None,
        file_path: None,
    }
}

#[test]
fn manager_knows_its_services() {
    assert_eq!(service_kind_named("scan").ok(), Some(ServiceKind::Scan));
    assert_eq!(service_kind_named("deviation").ok(), Some(ServiceKind::Deviation));
    match service_kind_named("nope") {
        Err(RegistryError::ConfigurationError(m)) => assert_eq!(m, "Unknown service: nope"),
        _ => panic!("expected a configuration error"),
    }
}

#[test]
fn bridge_calls_take_their_defaults() {
    match bridge_call("gitai_review", no_args()) {
        Some(BridgeCall::Review { depth, format, focus, .. }) => {
            assert_eq!(depth, "medium");
            assert_eq!(format, "markdown");
            assert!(focus.is_none());
        }
        _ => panic!("expected a review call"),
    }
    match bridge_call("gitai_scan", no_args()) {
        Some(BridgeCall::Scan { path, full_scan, .. }) => {
            assert_eq!(path, ".");
            assert!(!full_scan);
        }
        _ => panic!("expected a scan call"),
    }
    let mut a = no_args();
    a.staged = Some(false);
    assert!(matches!(bridge_call("gitai_diff", a), Some(BridgeCall::Diff { staged: false, .. })));
    assert!(matches!(bridge_call("gitai_diff", no_args()), Some(BridgeCall::Diff { staged: true, .. })));
    assert!(bridge_call("other", no_args()).is_none());
    assert_eq!(unknown_tool_message("other"), "未知的工具: other");
    assert_eq!(bridge_tool_names().len(), 5);
}

#[test]
fn bridge_replies() {
    assert_eq!(status_text("clean", false, "", ""), "📊 Git 状态\n\nclean");
    assert_eq!(
        status_text("s", true, "A", "B"),
        "📊 Git 状态（详细）\n\n状态: s\n\n暂存的更改:\nA\n\n未暂存的更改:\nB"
    );
    assert!(matches!(commit_reply(Err("x".to_string())), ToolReply::Failure(ref t) if t == "❌ 提交失败: x"));
    assert!(matches!(status_reply(Err("e".to_string()), false, "", ""), ToolReply::Failure(ref t) if t == "❌ 获取状态失败: e"));
    assert!(matches!(diff_reply(true, false, Err("e".to_string())), ToolReply::Failure(ref t) if t == "❌ 获取暂存差异失败: e"));
    assert!(matches!(diff_reply(true, true, Err("e".to_string())), ToolReply::Success(ref t) if t == "📝 代码差异\n\n"));
    assert!(matches!(diff_reply(false, false, Ok("d".to_string())), ToolReply::Success(ref t) if t == "📝 代码差异\n\nd"));
}

#[test]
fn stdio_server_requests_and_errors() {
    assert_eq!(server_method("initialize"), ServerMethod::Initialize);
    assert_eq!(server_method("tools/list"), ServerMethod::ToolsList);
    assert_eq!(server_method("tools/call"), ServerMethod::ToolsCall);
    assert_eq!(server_method("ping"), ServerMethod::NotFound);
    assert_eq!(method_not_found_message("ping"), "Method not found: ping");
    assert_eq!(rpc_error_of(ToolFailure::InvalidParameters("p".to_string())), (-32602, "InvalidParameters", "p".to_string()));
    assert_eq!(rpc_error_of(ToolFailure::Unknown("u".to_string())), (-32603, "Unknown", "u".to_string()));
    assert_eq!(rpc_error_of(ToolFailure::TimeoutError("t".to_string())).0, -32005);
    assert_eq!(server_tools()[2], "execute_scan");
}

#[test]
fn git_service_outcomes() {
    use_git_outcomes();
}

fn use_git_outcomes() {
    let r = gitai::mcp::services::git::chdir_failure(Some("/x"), "denied");
    assert!(!r.success);
    assert_eq!(r.stderr, "无法切换到目录 /x: denied");
    assert_eq!(r.exit_code, Some(1));
    assert_eq!(gitai::mcp::services::git::chdir_failure(None, "e").stderr, "无法切换到仓库目录: e");
    let ok = gitai::mcp::services::git::commit_outcome(Ok(()));
    assert!(ok.success);
    assert_eq!(ok.stdout, "GitAI 智能提交成功完成");
    let bad = gitai::mcp::services::git::review_outcome(Err("boom".to_string()));
    assert_eq!(bad.stderr, "GitAI 代码评审失败: boom");
    assert_eq!(gitai::mcp::services::git::review_outcome(Ok("out".to_string())).stdout, "out");
    let spawn = gitai::mcp::services::git::spawn_failure("no git");
    assert_eq!(spawn.exit_code, None);
    assert_eq!(spawn.stderr, "执行 git 命令失败: no git");
}

#[test]
fn review_and_scan_tools_answer_in_text() {
    assert!(matches!(review_reply(Ok(())), ToolReply::Success(ref t) if t == "📝 代码评审已完成，结果已显示在上方"));
    assert!(matches!(review_reply(Err("boom".to_string())), ToolReply::Failure(ref t) if t == "❌ 代码评审失败: boom"));
    assert!(matches!(scan_reply(), ToolReply::Success(ref t) if t == "🔍 代码扫描功能暂时在 MCP 模式下不可用"));
}

#[test]
fn scan_findings_become_review_findings_in_order() {
    let out = convert_scan_findings(vec![scan_finding("HIGH", Some("r1")), scan_finding("whatever", None)]);
    assert_eq!(out.len(), 2);
    assert_eq!(out[0].severity, ReviewSeverity::High);
    assert_eq!(out[0].rule_id.as_deref(), Some("r1"));
    assert_eq!(out[0].line, Some(3));
    assert_eq!(out[0].recommendation.as_deref(), Some("fix"));
    assert_eq!(out[1].severity, ReviewSeverity::Info);
    assert_eq!(out[1].rule_id, None);
}

#[test]
fn test_get_tools() {
    let tools = gitai::mcp_bridge::get_tools();
    assert_eq!(tools.len(), 5);
    assert!(tools.iter().any(|t| t.name == "gitai_commit"));
    assert!(tools.iter().any(|t| t.name == "gitai_review"));
    assert!(tools.iter().any(|t| t.name == "gitai_scan"));
    assert!(tools.iter().any(|t| t.name == "gitai_status"));
    assert!(tools.iter().any(|t| t.name == "gitai_diff"));
    assert_eq!(tools[3].description, "获取 Git 仓库状态信息");
    assert_eq!(tools[3].params.len(), 1);
    assert_eq!(tools[3].params[0].name, "detailed");
    assert_eq!(tools[3].params[0].param_type, "boolean");
}

#[test]
fn server_tools_are_described() {
    let tools = gitai::mcp::server::server_tool_specs();
    let names: Vec<&str> = tools.iter().map(|t| t.name.as_str()).collect();
    assert_eq!(names, vec!["execute_review", "execute_commit", "execute_scan", "execute_analysis"]);
    assert!(tools[2].params[0].required);
    assert_eq!(tools[1].params[1].item_type.as_deref(), Some("string"));
}

#[test]
fn scan_paths_are_looked_for_in_order() {
    let c = scan_path_candidates("../app", "/work", Some("/home/u"));
    assert_eq!(c, vec!["/work/../app", "/home/u/Projects/../app", "/home/u/Projects/gitai/../app"]);
    assert_eq!(scan_path_candidates("src", "/work/", None), vec!["/work/src"]);
    assert_eq!(scan_path_candidates("src", "/work", Some("/h")).len(), 2);
    assert_eq!(resolve_scan_path("../app", &c, &vec![false, true, true]), "/home/u/Projects/../app");
    assert_eq!(resolve_scan_path("../app", &c, &vec![false, false, false]), "../app");
    assert_eq!(resolve_scan_path("/abs", &vec!["/work//abs".to_string()], &vec![true]), "/abs");
    assert_eq!(scan_path_missing("x", "/w/x"), "扫描路径不存在: x (解析后: /w/x)");
}
