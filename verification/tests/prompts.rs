use gitai::prompt_engine::PromptEngine;
use gitai::prompts::{PromptContext, PromptManager};

#[test]
fn test_prompt_context() {
    let context = PromptContext::new()
        .with_variable("diff", "test diff")
        .with_variable("tree_sitter_summary", "test summary");
    assert_eq!(context.get_variable("diff"), Some("test diff"));
    assert_eq!(context.get_variable("tree_sitter_summary"), Some("test summary"));
}

#[test]
fn prompts_test_template_rendering() {
    let manager = PromptManager::new(None);
    let template = "代码变更：\n```diff\n{diff}\n```\n\n{tree_sitter_summary}";
    let context = PromptContext::new()
        .with_variable("diff", "+ added line")
        .with_variable("tree_sitter_summary", "函数分析结果");
    let rendered = manager.render_template(template, &context);
    assert!(rendered.contains("+ added line"));
    assert!(rendered.contains("函数分析结果"));
    assert_eq!(rendered, "代码变更：\n```diff\n+ added line\n```\n\n函数分析结果");
}

#[test]
fn test_language_detection() {
    let manager = PromptManager::new(Some("cn".to_string()));
    assert_eq!(manager.get_language(None), Some("cn".to_string()));
    let unset = PromptManager::new(None);
    assert_eq!(unset.get_language(Some("zh_CN.UTF-8")), Some("cn".to_string()));
    assert_eq!(unset.get_language(Some("en_US.UTF-8")), None);
}

#[test]
fn test_template_loading() {
    let manager = PromptManager::new(None);
    let result = manager.load_and_render("nonexistent", None, &PromptContext::new());
    assert!(result.is_err());
    assert_eq!(result.unwrap_err(), "未找到提示词模板: nonexistent");
}

#[test]
fn test_prompt_engine_creation() {
    let engine = PromptEngine::new(Vec::new()).unwrap();
    assert!(engine.has_template("architectural_analysis"));
    assert!(engine.has_template("security_analysis"));
    assert!(!engine.has_template("other"));
}

#[test]
fn prompt_engine_test_template_rendering() {
    let engine = PromptEngine::from_templates(vec![(
        "test".to_string(),
        "Hello {{name}}, language: {{language}}".to_string(),
    )]);
    let context = vec![
        ("name".to_string(), "World".to_string()),
        ("language".to_string(), "Rust".to_string()),
    ];
    let result = engine.render("test", &context).unwrap();
    assert_eq!(result, "Hello World, language: Rust");
}

#[test]
fn test_missing_template() {
    let engine = PromptEngine::from_templates(Vec::new());
    let result = engine.render("nonexistent", &Vec::new());
    assert!(result.is_err());
    assert_eq!(result.unwrap_err(), "模板 'nonexistent' 未找到");
}

#[test]
fn user_templates_replace_builtin_ones() {
    let engine = PromptEngine::new(vec![("security_analysis".to_string(), "X {{code}}".to_string())]).unwrap();
    let ctx = vec![("code".to_string(), "c".to_string())];
    assert_eq!(engine.render("security_analysis", &ctx).unwrap(), "X c");
    assert!(engine.render("quality_analysis", &ctx).unwrap().contains("\n\nc\n\n"));
}

#[test]
fn template_search_tries_language_then_default_user_dir_first() {
    let paths = PromptManager::get_template_path("/home/u/.config/gitai/prompts", "/opt/assets/prompts/", "review", Some("cn"));
    assert_eq!(
        paths,
        vec![
            "/home/u/.config/gitai/prompts/cn/review.md".to_string(),
            "/home/u/.config/gitai/prompts/review.md".to_string(),
            "/opt/assets/prompts/cn/review.md".to_string(),
            "/opt/assets/prompts/review.md".to_string(),
        ]
    );
    let plain = PromptManager::get_template_path("p", "", "commit", None);
    assert_eq!(plain, vec!["p/commit.md".to_string(), "commit.md".to_string()]);
}

#[test]
fn prompt_config_path_prefers_configured_directory() {
    assert_eq!(PromptEngine::get_config_path(Some("/etc/gitai"), Some("/home/u")), Some("/etc/gitai/prompts.yaml".to_string()));
    assert_eq!(PromptEngine::get_config_path(None, Some("/home/u")), Some("/home/u/.config/gitai/prompts.yaml".to_string()));
    assert_eq!(PromptEngine::get_config_path(None, None), None);
}

#[test]
fn later_user_template_wins() {
    let engine = PromptEngine::new(vec![
        ("mine".to_string(), "first".to_string()),
        ("mine".to_string(), "second {{x}}".to_string()),
    ])
    .unwrap();
    let ctx = vec![("x".to_string(), "y".to_string())];
    assert_eq!(engine.render("mine", &ctx).unwrap(), "second y");
    assert!(engine.has_template("quality_analysis"));
}

#[test]
fn prompts_dir_is_under_home_config() {
    assert_eq!(PromptManager::get_prompts_dir(Some("/home/u")), "/home/u/.config/gitai/prompts");
    assert_eq!(PromptManager::get_prompts_dir(None), "./.config/gitai/prompts");
}

#[test]
fn rendering_keeps_text_without_context_variables() {
    let engine = PromptEngine::from_templates(vec![("t".to_string(), "Hello {{other}} {name} {{ name }}".to_string())]);
    let ctx = vec![("name".to_string(), "World".to_string())];
    assert_eq!(engine.render("t", &ctx).unwrap(), "Hello {{other}} {name} {{ name }}");
    assert_eq!(engine.render("t", &Vec::new()).unwrap(), "Hello {{other}} {name} {{ name }}");
}

#[test]
fn rendering_fills_known_variables_and_keeps_the_rest() {
    let engine = PromptEngine::from_templates(vec![(
        "t".to_string(),
        "Hi {{name}}, {{unknown}} and {name}; {{name}} again in {{lang}}".to_string(),
    )]);
    let ctx = vec![
        ("name".to_string(), "Bob".to_string()),
        ("lang".to_string(), "Rust".to_string()),
        ("name".to_string(), "Ann".to_string()),
    ];
    assert_eq!(engine.render("t", &ctx).unwrap(), "Hi Bob, {{unknown}} and {name}; Bob again in Rust");
}
