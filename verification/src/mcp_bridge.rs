use crate::scan::opt_view;
use crate::mcp::types::{tool_param, tool_spec, tools_view, ToolParam, ToolSpec};
use crate::text::same_text;
use vstd::prelude::*;

verus! {

/// The arguments a tool call may carry, each where it is given with the right
/// kind of value.
pub struct BridgeArgs {
    /// `message`.
    pub message: Option<String>,
    /// `auto_stage`.
    pub auto_stage: Option<bool>,
    /// `tree_sitter`.
    pub tree_sitter: Option<bool>,
    /// `issue_id`.
    pub issue_id: Option<String>,
    /// `depth`.
    pub depth: Option<String>,
    /// `focus`.
    pub focus: Option<String>,
    /// `language`.
    pub language: Option<String>,
    /// `format`.
    pub format: Option<String>,
    /// `path`.
    pub path: Option<String>,
    /// `full_scan`.
    pub full_scan: Option<bool>,
    /// `update_rules`.
    pub update_rules: Option<bool>,
    /// `detailed`.
    pub detailed: Option<bool>,
    /// `staged`.
    pub staged: Option<bool>,
    /// `file_path`.
    pub file_path: Option<String>,
}

/// A call of one of the bridge's tools, with its settled arguments.
pub enum BridgeCall {
    /// Commit, with an optional message, staging and structure analysis as asked.
    Commit { message: Option<String>, auto_stage: bool, tree_sitter: bool, issue_id: Option<String> },
    /// Review at a depth, with an optional focus and language, in a format.
    Review { depth: String, focus: Option<String>, language: Option<String>, format: String },
    /// Scan a path.
    Scan { path: String, full_scan: bool, update_rules: bool },
    /// The state of the repository, in detail or not.
    Status { detailed: bool },
    /// The changes, staged or not, of a file or all.
    Diff { staged: bool, file_path: Option<String> },
}

/// An optional boolean, or false where it is absent.
pub open spec fn or_false(b: Option<bool>) -> bool {
    match b {
        Some(x) => x,
        None => false,
    }
}

/// Whether `c` is the call of the tool named `name` with arguments `a`: each
/// tool takes its own arguments, filling in its defaults (review at `medium`
/// depth in `markdown`, scan of `.`, staged changes); `None` for an unknown tool.
pub open spec fn call_of(name: Seq<char>, a: BridgeArgs, c: Option<BridgeCall>) -> bool {
    if name == "gitai_commit"@ {
        c matches Some(BridgeCall::Commit { message, auto_stage, tree_sitter, issue_id }) && opt_view(message)
            == opt_view(a.message) && auto_stage == or_false(a.auto_stage) && tree_sitter == or_false(a.tree_sitter)
            && opt_view(issue_id) == opt_view(a.issue_id)
    } else if name == "gitai_review"@ {
        c matches Some(BridgeCall::Review { depth, focus, language, format }) && depth@ == (match a.depth {
            Some(d) => d@,
            None => "medium"@,
        }) && opt_view(focus) == opt_view(a.focus) && opt_view(language) == opt_view(a.language) && format@ == (
        match a.format {
            Some(f) => f@,
            None => "markdown"@,
        })
    } else if name == "gitai_scan"@ {
        c matches Some(BridgeCall::Scan { path, full_scan, update_rules }) && path@ == (match a.path {
            Some(p) => p@,
            None => "."@,
        }) && full_scan == or_false(a.full_scan) && update_rules == or_false(a.update_rules)
    } else if name == "gitai_status"@ {
        c matches Some(BridgeCall::Status { detailed }) && detailed == or_false(a.detailed)
    } else if name == "gitai_diff"@ {
        c matches Some(BridgeCall::Diff { staged, file_path }) && staged == (match a.staged {
            Some(s) => s,
            None => true,
        }) && opt_view(file_path) == opt_view(a.file_path)
    } else {
        c is None
    }
}

fn text_or(s: Option<String>, d: &str) -> (r: String)
    ensures
        r@ == (match s {
            Some(t) => t@,
            None => d@,
        }),
{
    match s {
        Some(t) => t,
        None => String::from_str(d),
    }
}

fn flag_or_false(b: Option<bool>) -> (r: bool)
    ensures
        r == or_false(b),
{
    match b {
        Some(x) => x,
        None => false,
    }
}

/// The call of the tool named `name` with arguments `args` (see `call_of`).
pub fn bridge_call(name: &str, args: BridgeArgs) -> (r: Option<BridgeCall>)
    ensures
        call_of(name@, args, r),
{
    if same_text(name, "gitai_commit") {
        Some(
            BridgeCall::Commit {
                message: args.message,
                auto_stage: flag_or_false(args.auto_stage),
                tree_sitter: flag_or_false(args.tree_sitter),
                issue_id: args.issue_id,
            },
        )
    } else if same_text(name, "gitai_review") {
        Some(
            BridgeCall::Review {
                depth: text_or(args.depth, "medium"),
                focus: args.focus,
                language: args.language,
                format: text_or(args.format, "markdown"),
            },
        )
    } else if same_text(name, "gitai_scan") {
        Some(
            BridgeCall::Scan {
                path: text_or(args.path, "."),
                full_scan: flag_or_false(args.full_scan),
                update_rules: flag_or_false(args.update_rules),
            },
        )
    } else if same_text(name, "gitai_status") {
        Some(BridgeCall::Status { detailed: flag_or_false(args.detailed) })
    } else if same_text(name, "gitai_diff") {
        Some(
            BridgeCall::Diff {
                staged: match args.staged {
                    Some(s) => s,
                    None => true,
                },
                file_path: args.file_path,
            },
        )
    } else {
        None
    }
}

/// The error text of a call of an unknown tool.
pub fn unknown_tool_message(name: &str) -> (r: String)
    ensures
        r@ == "未知的工具: "@ + name@,
{
    let mut m = String::from_str("未知的工具: ");
    m.append(name);
    m
}

/// The names of the bridge's tools, in order.
pub open spec fn bridge_tool_names_seq() -> Seq<Seq<char>> {
    seq!["gitai_commit"@, "gitai_review"@, "gitai_scan"@, "gitai_status"@, "gitai_diff"@]
}

/// The names of the bridge's tools, in order.
pub fn bridge_tool_names() -> (r: Vec<String>)
    ensures
        crate::text::texts(r@) == bridge_tool_names_seq(),
{
    let r = vec![
        String::from_str("gitai_commit"),
        String::from_str("gitai_review"),
        String::from_str("gitai_scan"),
        String::from_str("gitai_status"),
        String::from_str("gitai_diff"),
    ];
    assert(crate::text::texts(r@) =~= bridge_tool_names_seq());
    r
}

/// The bridge's tools as plain values: name, description, and for each
/// parameter its name, JSON type, item type, description and whether it is
/// required.
pub open spec fn bridge_tools_table() -> Seq<
    (Seq<char>, Seq<char>, Seq<(Seq<char>, Seq<char>, Option<Seq<char>>, Option<Seq<char>>, bool)>),
> {
    seq![
        ("gitai_commit"@, "使用 AI 生成智能提交信息并执行提交"@, seq![
            ("message"@, "string"@, None, Some("自定义提交信息（可选，如果不提供将使用 AI 生成）"@), false),
            ("auto_stage"@, "boolean"@, None, Some("是否自动暂存修改的文件"@), false),
            ("tree_sitter"@, "boolean"@, None, Some("是否启用 Tree-sitter 语法分析增强"@), false),
            ("issue_id"@, "string"@, None, Some("关联的 issue ID（可选）"@), false),
        ]),
        ("gitai_review"@, "对代码进行 AI 驱动的智能评审"@, seq![
            ("depth"@, "string"@, None, Some("分析深度: shallow | medium | deep"@), false),
            ("focus"@, "string"@, None, Some("重点关注领域（如：性能、安全、可读性）"@), false),
            ("language"@, "string"@, None, Some("限制分析的编程语言"@), false),
            ("format"@, "string"@, None, Some("输出格式: text | json | markdown"@), false),
        ]),
        ("gitai_scan"@, "执行代码安全和质量扫描"@, seq![
            ("path"@, "string"@, None, Some("指定扫描路径（默认: 当前目录）"@), false),
            ("full_scan"@, "boolean"@, None, Some("是否执行全量扫描"@), false),
            ("update_rules"@, "boolean"@, None, Some("是否更新扫描规则"@), false),
        ]),
        ("gitai_status"@, "获取 Git 仓库状态信息"@, seq![
            ("detailed"@, "boolean"@, None, Some("是否返回详细状态信息"@), false),
        ]),
        ("gitai_diff"@, "获取代码差异信息"@, seq![
            ("staged"@, "boolean"@, None, Some("是否显示已暂存的更改"@), false),
            ("file_path"@, "string"@, None, Some("特定文件路径（可选）"@), false),
        ]),
    ]
}

/// The bridge's tools (see `bridge_tools_table`), in the order of
/// `bridge_tool_names`; each takes a JSON object of its parameters.
pub fn get_tools() -> (r: Vec<ToolSpec>)
    ensures
        tools_view(r@) == bridge_tools_table(),
{
    let commit = vec![
        tool_param("message", "string", None, Some("自定义提交信息（可选，如果不提供将使用 AI 生成）"), false),
        tool_param("auto_stage", "boolean", None, Some("是否自动暂存修改的文件"), false),
        tool_param("tree_sitter", "boolean", None, Some("是否启用 Tree-sitter 语法分析增强"), false),
        tool_param("issue_id", "string", None, Some("关联的 issue ID（可选）"), false),
    ];
    let review = vec![
        tool_param("depth", "string", None, Some("分析深度: shallow | medium | deep"), false),
        tool_param("focus", "string", None, Some("重点关注领域（如：性能、安全、可读性）"), false),
        tool_param("language", "string", None, Some("限制分析的编程语言"), false),
        tool_param("format", "string", None, Some("输出格式: text | json | markdown"), false),
    ];
    let scan = vec![
        tool_param("path", "string", None, Some("指定扫描路径（默认: 当前目录）"), false),
        tool_param("full_scan", "boolean", None, Some("是否执行全量扫描"), false),
        tool_param("update_rules", "boolean", None, Some("是否更新扫描规则"), false),
    ];
    let status = vec![tool_param("detailed", "boolean", None, Some("是否返回详细状态信息"), false)];
    let diff = vec![
        tool_param("staged", "boolean", None, Some("是否显示已暂存的更改"), false),
        tool_param("file_path", "string", None, Some("特定文件路径（可选）"), false),
    ];
    let r = vec![
        tool_spec("gitai_commit", "使用 AI 生成智能提交信息并执行提交", commit),
        tool_spec("gitai_review", "对代码进行 AI 驱动的智能评审", review),
        tool_spec("gitai_scan", "执行代码安全和质量扫描", scan),
        tool_spec("gitai_status", "获取 Git 仓库状态信息", status),
        tool_spec("gitai_diff", "获取代码差异信息", diff),
    ];
    assert(tools_view(r@) =~~= bridge_tools_table());
    r
}

/// The listed tools are the bridge's tool names, once each, every one of
/// them a tool that a call dispatches on.
pub proof fn lemma_listed_tools_dispatch()
    ensures
        bridge_tools_table().len() == bridge_tool_names_seq().len(),
        forall|i: int| 0 <= i < bridge_tools_table().len() ==> #[trigger] bridge_tools_table()[i].0 == bridge_tool_names_seq()[i],
        bridge_tool_names_seq().no_duplicates(),
        forall|i: int, a: BridgeArgs, c: Option<BridgeCall>|
            0 <= i < bridge_tool_names_seq().len() && #[trigger] call_of(bridge_tool_names_seq()[i], a, c) ==> c is Some,
{
    reveal_strlit("gitai_commit");
    reveal_strlit("gitai_review");
    reveal_strlit("gitai_scan");
    reveal_strlit("gitai_status");
    reveal_strlit("gitai_diff");
    let n = bridge_tool_names_seq();
    assert(n[0][6] == 'c' && n[1][6] == 'r' && n[2][6] == 's' && n[3][6] == 's' && n[4][6] == 'd');
    assert(n[2][7] == 'c' && n[3][7] == 't');
    assert forall|a: int, b: int| 0 <= a < n.len() && 0 <= b < n.len() && a != b implies n[a] != n[b] by {
        if n[a] == n[b] {
            assert(n[a][6] == n[b][6]);
            assert(n[a][7] == n[b][7]);
        }
    }
}

/// The text the status tool answers with: the status, and in detail also the
/// staged and unstaged changes.
pub open spec fn status_text_of(status: Seq<char>, detailed: bool, staged: Seq<char>, unstaged: Seq<char>) -> Seq<char> {
    if detailed {
        "📊 Git 状态（详细）\n\n状态: "@ + status + "\n\n暂存的更改:\n"@ + staged + "\n\n未暂存的更改:\n"@ + unstaged
    } else {
        "📊 Git 状态\n\n"@ + status
    }
}

/// The text the status tool answers with (see `status_text_of`).
pub fn status_text(status: &str, detailed: bool, staged: &str, unstaged: &str) -> (r: String)
    ensures
        r@ == status_text_of(status@, detailed, staged@, unstaged@),
{
    if detailed {
        let mut t = String::from_str("📊 Git 状态（详细）\n\n状态: ");
        t.append(status);
        t.append("\n\n暂存的更改:\n");
        t.append(staged);
        t.append("\n\n未暂存的更改:\n");
        t.append(unstaged);
        t
    } else {
        let mut t = String::from_str("📊 Git 状态\n\n");
        t.append(status);
        t
    }
}

/// The text the diff tool answers with.
pub fn diff_text(diff: &str) -> (r: String)
    ensures
        r@ == "📝 代码差异\n\n"@ + diff@,
{
    let mut t = String::from_str("📝 代码差异\n\n");
    t.append(diff);
    t
}

/// What a tool call answers: success with its text, or failure with its text.
pub enum ToolReply {
    /// The call succeeded.
    Success(String),
    /// The call failed.
    Failure(String),
}

/// What the commit tool answers, given how the commit went.
pub fn commit_reply(outcome: Result<(), String>) -> (r: ToolReply)
    ensures
        outcome is Ok ==> (r matches ToolReply::Success(t) && t@ == "✅ 提交成功完成"@),
        outcome matches Err(e) ==> (r matches ToolReply::Failure(t) && t@ == "❌ 提交失败: "@ + e@),
{
    match outcome {
        Ok(()) => ToolReply::Success(String::from_str("✅ 提交成功完成")),
        Err(e) => {
            let mut t = String::from_str("❌ 提交失败: ");
            t.append(e.as_str());
            ToolReply::Failure(t)
        },
    }
}

/// What the review tool answers, given how the review went.
pub fn review_reply(outcome: Result<(), String>) -> (r: ToolReply)
    ensures
        outcome is Ok ==> (r matches ToolReply::Success(t) && t@ == "📝 代码评审已完成，结果已显示在上方"@),
        outcome matches Err(e) ==> (r matches ToolReply::Failure(t) && t@ == "❌ 代码评审失败: "@ + e@),
{
    match outcome {
        Ok(()) => ToolReply::Success(String::from_str("📝 代码评审已完成，结果已显示在上方")),
        Err(e) => {
            let mut t = String::from_str("❌ 代码评审失败: ");
            t.append(e.as_str());
            ToolReply::Failure(t)
        },
    }
}

/// What the scan tool answers: scans are not offered through the bridge.
pub fn scan_reply() -> (r: ToolReply)
    ensures
        r matches ToolReply::Success(t) && t@ == "🔍 代码扫描功能暂时在 MCP 模式下不可用"@,
{
    ToolReply::Success(String::from_str("🔍 代码扫描功能暂时在 MCP 模式下不可用"))
}

/// What the status tool answers: the status text, or the failure to read it.
pub fn status_reply(status: Result<String, String>, detailed: bool, staged: &str, unstaged: &str) -> (r: ToolReply)
    ensures
        status matches Ok(s) ==> (r matches ToolReply::Success(t) && t@ == status_text_of(s@, detailed, staged@, unstaged@)),
        status matches Err(e) ==> (r matches ToolReply::Failure(t) && t@ == "❌ 获取状态失败: "@ + e@),
{
    match status {
        Ok(s) => ToolReply::Success(status_text(s.as_str(), detailed, staged, unstaged)),
        Err(e) => {
            let mut t = String::from_str("❌ 获取状态失败: ");
            t.append(e.as_str());
            ToolReply::Failure(t)
        },
    }
}

/// What the diff tool answers: the staged changes (whatever happened, where a
/// file is named), failing where the staged changes of all files cannot be
/// read; the unstaged changes (empty where they cannot be read).
pub fn diff_reply(staged: bool, file_named: bool, changes: Result<String, String>) -> (r: ToolReply)
    ensures
        staged && !file_named ==> match changes {
            Ok(d) => r matches ToolReply::Success(t) && t@ == "📝 代码差异\n\n"@ + d@,
            Err(e) => r matches ToolReply::Failure(t) && t@ == "❌ 获取暂存差异失败: "@ + e@,
        },
        !(staged && !file_named) ==> match changes {
            Ok(d) => r matches ToolReply::Success(t) && t@ == "📝 代码差异\n\n"@ + d@,
            Err(_) => r matches ToolReply::Success(t) && t@ == "📝 代码差异\n\n"@,
        },
{
    match changes {
        Ok(d) => ToolReply::Success(diff_text(d.as_str())),
        Err(e) => {
            if staged && !file_named {
                let mut t = String::from_str("❌ 获取暂存差异失败: ");
                t.append(e.as_str());
                ToolReply::Failure(t)
            } else {
                proof {
                    reveal_strlit("");
                }
                let t = diff_text("");
                assert(t@ =~= "📝 代码差异\n\n"@);
                ToolReply::Success(t)
            }
        },
    }
}

} // verus!
