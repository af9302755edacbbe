use gitai::review::analyzer::{
    detect_language_from_file_path, extract_code_by_language,
    detect_supported_language, extract_file_path_from_diff_line, infer_all_languages_from_diff, SupportedLanguage,
};
use gitai::review::cache::{build_cache_key, cache_file_name, hex_of_bytes, stale_cache_entries};
use gitai::review::executor::{
    build_review_prompt, cached_review, choose_review_input, dependency_penalty, extract_score_from_response,
    completed_review, review_score, staging_hints, unavailable_review, unchanged_review, ReviewInput,
};
use gitai::review::types::{Finding, ReviewConfig, Severity};

fn finding(severity: Severity) -> Finding {
    Finding {
        title: "t".to_string(),
        severity,
        file_path: None,
        line: None,
        column: None,
        code_snippet: None,
        message: "m".to_string(),
        rule_id: None,
        recommendation: None,
    }
}

fn config(issue_ids: &[&str]) -> ReviewConfig {
    ReviewConfig {
        language: Some("zh".to_string()),
        format: "text".to_string(),
        output: None,
        tree_sitter: false,
        security_scan: false,
        scan_tool: None,
        block_on_critical: false,
        issue_ids: issue_ids.iter().map(|s| s.to_string()).collect(),
        full: false,
        deviation_analysis: true,
    }
}

#[test]
fn score_is_read_from_the_first_line_that_states_one() {
    assert_eq!(extract_score_from_response("总体评分: 85\n其他"), Some(85));
    assert_eq!(extract_score_from_response("Score: 120\nscore 90"), Some(90));
    assert_eq!(extract_score_from_response("评分：85分"), Some(85));
    assert_eq!(extract_score_from_response("Score: (77)."), Some(77));
    assert_eq!(extract_score_from_response("no numbers here"), None);
    assert_eq!(extract_score_from_response("85 without the word"), None);
    assert_eq!(extract_score_from_response("Score: 300 and 101"), None);
    assert_eq!(extract_score_from_response(""), None);
}

#[test]
fn score_takes_off_points_for_severe_findings_and_the_penalty() {
    let security = vec![finding(Severity::High), finding(Severity::Low), finding(Severity::Critical)];
    assert_eq!(review_score("评分 90", &security, 5), 65);
    assert_eq!(review_score("nothing stated", &Vec::new(), 0), 85);
    assert_eq!(review_score("score 10", &security, 0), 0);
}

#[test]
fn dependency_penalty_is_five_per_node_capped() {
    assert_eq!(dependency_penalty(0), 0);
    assert_eq!(dependency_penalty(3), 15);
    assert_eq!(dependency_penalty(60), 255);
    assert_eq!(dependency_penalty(256), 0);
}

#[test]
fn blank_changes_are_no_changes() {
    assert!(matches!(choose_review_input(Some("  \n".to_string()), None), ReviewInput::Unchanged));
    assert!(matches!(choose_review_input(None, Some(" ".to_string())), ReviewInput::Unchanged));
    assert!(matches!(choose_review_input(None, None), ReviewInput::Unavailable));
    match choose_review_input(Some("+a".to_string()), Some("ignored".to_string())) {
        ReviewInput::Changes(d) => assert_eq!(d, "+a"),
        _ => panic!("expected changes"),
    }
    match choose_review_input(None, Some("+b".to_string())) {
        ReviewInput::Changes(d) => assert_eq!(d, "## 最后一次提交的变更 (Last Commit):\n+b"),
        _ => panic!("expected changes"),
    }
}

#[test]
fn early_review_outcomes() {
    let r = unchanged_review();
    assert!(r.success);
    assert_eq!(r.score, Some(100));
    assert_eq!(r.message, "没有检测到代码变更");
    assert_eq!(r.details.len(), 0);
    let r = unavailable_review(Some("/work".to_string()));
    assert_eq!(r.score, None);
    assert_eq!(r.recommendations.len(), 3);
    assert_eq!(r.details.get("cwd").map(|s| s.as_str()), Some("/work"));
    let r = cached_review("cached text".to_string());
    assert_eq!(r.summary, "cached text");
    assert_eq!(r.score, Some(85));
    assert_eq!(r.message, "代码评审完成（缓存）");
}

#[test]
fn staging_hints_follow_the_working_tree() {
    assert_eq!(staging_hints(false, true, false, true), vec!["✅ 已暂存的代码准备就绪", "   📝 GitAI将分析已暂存的变更"]);
    let hints = staging_hints(true, true, false, false);
    assert_eq!(hints.len(), 6);
    assert_eq!(hints[0], "💡 提示：检测到未暂存的代码变更");
    assert_eq!(hints[2], "   当前已暂存的变更也会被评审");
    assert_eq!(hints[5], "");
    assert_eq!(staging_hints(false, false, false, true)[0], "🔍 检查未推送的提交...");
    assert_eq!(staging_hints(false, false, false, false)[1], "   git add -A && git commit -m \"init\"");
}

#[test]
fn prompt_holds_the_changes_and_optional_parts() {
    assert_eq!(
        build_review_prompt("D", None, None, ""),
        "请对以下代码变更进行详细评审：\n\nD\n\n请提供：\n1. 代码质量评估\n2. 潜在问题和风险\n3. 改进建议\n4. 总体评分（1-100）\n"
    );
    let p = build_review_prompt("D", Some("S"), Some("G"), "ISSUE");
    assert!(p.contains("\n结构分析结果：\nS\n"));
    assert!(p.contains("\n依赖图关键洞察：\nG\n"));
    assert!(p.contains("\n相关 Issue 上下文：\nISSUE\n"));
    assert!(p.ends_with("3. 给出偏离项清单与建议收敛方案；\n"));
}

#[test]
fn cache_key_ignores_the_order_of_issues() {
    let a = build_cache_key("diff", &config(&["b", "a"]));
    let b = build_cache_key("diff", &config(&["a", "b"]));
    let c = build_cache_key("other diff", &config(&["a", "b"]));
    assert_eq!(a, b);
    assert_ne!(a, c);
    assert_eq!(a.len(), 32);
    assert!(a.chars().all(|ch| ch.is_ascii_hexdigit() && !ch.is_ascii_uppercase()));
}

#[test]
fn cache_key_is_the_digest_of_the_request() {
    let diff_hash = format!("{:x}", md5::compute("diff".as_bytes()));
    let mut m = serde_json::Map::new();
    m.insert("diff".to_string(), serde_json::Value::from(diff_hash));
    m.insert("language".to_string(), serde_json::Value::from("zh"));
    m.insert("security_scan".to_string(), serde_json::Value::Bool(false));
    m.insert("deviation_analysis".to_string(), serde_json::Value::Bool(true));
    m.insert("issue_ids".to_string(), serde_json::Value::from(vec!["a".to_string(), "b".to_string()]));
    let payload = serde_json::Value::Object(m).to_string();
    let expected = format!("{:x}", md5::compute(payload.as_bytes()));
    assert_eq!(build_cache_key("diff", &config(&["b", "a"])), expected);
}

#[test]
fn hex_writes_two_lower_case_digits_per_byte() {
    assert_eq!(hex_of_bytes(&vec![0, 255, 16, 9]), "00ff1009");
    assert_eq!(hex_of_bytes(&Vec::new()), "");
    assert_eq!(cache_file_name("abc"), "review_abc.json");
}

#[test]
fn oldest_cache_files_go_first() {
    assert_eq!(stale_cache_entries(&vec![5, 1, 3, 1], 2), vec![1, 3]);
    assert_eq!(stale_cache_entries(&vec![5, 1, 3], 3), Vec::<usize>::new());
    assert_eq!(stale_cache_entries(&vec![2, 2, 2], 1), vec![0, 1]);
}

#[test]
fn languages_are_named_ignoring_case() {
    assert_eq!(detect_supported_language("Rust"), Some(SupportedLanguage::Rust));
    assert_eq!(detect_supported_language("c++"), Some(SupportedLanguage::Cpp));
    assert_eq!(detect_supported_language("TS"), Some(SupportedLanguage::TypeScript));
    assert_eq!(detect_supported_language("unknown"), None);
}

#[test]
fn languages_are_inferred_from_diff_headers() {
    let diff = "\ndiff --git a/src/main.rs b/src/main.rs\nindex 83db48f..f735c13 100644\n--- a/src/main.rs\n+++ b/src/main.rs\ndiff --git a/app.py b/app.py\n--- a/app.py\n+++ b/app.py\n";
    let langs = infer_all_languages_from_diff(diff);
    assert!(langs.contains(&SupportedLanguage::Rust));
    assert!(langs.contains(&SupportedLanguage::Python));
    assert_eq!(langs.len(), 2);
    assert_eq!(infer_all_languages_from_diff("+++ b/y.cc\n"), vec![SupportedLanguage::Cpp]);
    assert_eq!(
        infer_all_languages_from_diff("+++ b/x.c\n+++ b/y.cc\n"),
        vec![SupportedLanguage::C, SupportedLanguage::Cpp]
    );
    assert!(infer_all_languages_from_diff("+int x.rs;\n").is_empty());
}

#[test]
fn file_path_comes_from_the_diff_line() {
    assert_eq!(
        extract_file_path_from_diff_line("diff --git a/src/main.rs b/src/main.rs"),
        Some("src/main.rs".to_string())
    );
    assert_eq!(extract_file_path_from_diff_line("index 83db48f..bf3e3aa 100644"), None);
    assert_eq!(extract_file_path_from_diff_line("diff --git a/x"), None);
    assert_eq!(extract_file_path_from_diff_line("diff --git a/x c/y"), Some("c/y".to_string()));
}

#[test]
fn issue_context_is_needed_for_named_issues_or_deviation() {
    assert!(config(&["1"]).needs_issue_context());
    assert!(config(&[]).needs_issue_context());
    let mut c = config(&[]);
    c.deviation_analysis = false;
    assert!(!c.needs_issue_context());
}

#[test]
fn severity_parses_from_text_ignoring_case() {
    assert_eq!("CRITICAL".parse::<Severity>(), Ok(Severity::Critical));
    assert_eq!("warning".parse::<Severity>(), Ok(Severity::Warning));
    assert_eq!("whatever".parse::<Severity>(), Ok(Severity::Info));
}

#[test]
fn completed_review_carries_details_findings_and_score() {
    let r = completed_review("总体评分: 90".to_string(), true, vec![finding(Severity::High), finding(Severity::Low)], 5);
    assert!(r.success);
    assert_eq!(r.message, "代码评审完成");
    assert_eq!(r.score, Some(75));
    assert_eq!(r.findings.len(), 2);
    assert_eq!(r.details.get("review_result").map(|s| s.as_str()), Some("总体评分: 90"));
    assert_eq!(r.details.get("tree_sitter").map(|s| s.as_str()), Some("true"));
    assert_eq!(r.details.get("security_findings_count").map(|s| s.as_str()), Some("2"));
    let plain = completed_review("text".to_string(), false, vec![], 0);
    assert_eq!(plain.details.len(), 1);
    assert_eq!(plain.score, Some(85));
}

#[test]
fn unavailable_review_without_a_directory_has_no_details() {
    assert_eq!(unavailable_review(None).details.len(), 0);
}

#[test]
fn code_is_grouped_by_the_language_of_its_file() {
    let diff = "\
diff --git a/src/main.rs b/src/main.rs
index 123..456 100644
--- a/src/main.rs
+++ b/src/main.rs
@@ -1,3 +1,4 @@
 fn used() {}
+fn added() {}
";
    let map = extract_code_by_language(diff);
    assert_eq!(map.len(), 1);
    assert_eq!(map[0].0, "rust");
    assert!(map[0].1.contains("fn used() {}"));
    assert!(map[0].1.contains("fn added() {}"));
    assert_eq!(map[0].1, " fn used() {}\nfn added() {}");
}

#[test]
fn removed_and_blank_lines_and_unknown_files_give_no_code() {
    let diff = "diff --git a/app.py b/app.py\n--- a/app.py\n+++ b/app.py\n-old = 1\n+new = 2\n   \n\ndiff --git a/README.md b/README.md\n+text\ndiff --git a/x.c b/x.c\n+int x;\n";
    let map = extract_code_by_language(diff);
    assert_eq!(
        map,
        vec![
            ("python".to_string(), "new = 2".to_string()),
            ("c".to_string(), "int x;".to_string()),
        ]
    );
    assert!(extract_code_by_language("").is_empty());
}

#[test]
fn file_language_follows_the_extension() {
    assert_eq!(detect_language_from_file_path("src/lib.rs"), Some(SupportedLanguage::Rust));
    assert_eq!(detect_language_from_file_path("include/a.H"), Some(SupportedLanguage::C));
    assert_eq!(detect_language_from_file_path("README.md"), None);
    assert_eq!(detect_language_from_file_path(".rs"), None);
    assert_eq!(SupportedLanguage::TypeScript.name(), "typescript");
}
