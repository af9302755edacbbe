use crate::review::types::{Finding, ReviewResult, Severity};
use crate::text::{decimal_text, format_decimal, has_infix, lines_of, lines_text, str_contains, texts, trim_str, trim_text, words_of, words_text};
use crate::mcp::utils::ConfigMap;
use vstd::prelude::*;

verus! {

/// Whether `char::is_numeric` holds of `c` (Unicode's number categories).
pub uninterp spec fn numeric_char(c: char) -> bool;

/// `char::is_numeric`: whether `c` is in one of Unicode's number categories
/// (`Nd`, `Nl`, `No`); the ASCII digits are among them.
#[verifier::external_body]
fn char_is_numeric(c: char) -> (r: bool)
    ensures
        r == numeric_char(c),
        ('0' <= c && c <= '9') ==> r,
{
    c.is_numeric()
}

/// Number of characters at the start of `s` that are not numeric.
pub open spec fn leading_non_numeric(s: Seq<char>) -> nat
    decreases s.len(),
{
    if s.len() > 0 && !numeric_char(s[0]) {
        1 + leading_non_numeric(s.drop_first())
    } else {
        0
    }
}

/// Number of characters at the end of `s` that are not numeric.
pub open spec fn trailing_non_numeric(s: Seq<char>) -> nat
    decreases s.len(),
{
    if s.len() > 0 && !numeric_char(s.last()) {
        1 + trailing_non_numeric(s.drop_last())
    } else {
        0
    }
}

/// `s` without the characters that are not numeric at either end, as
/// `str::trim_matches(|c| !c.is_numeric())` gives it.
pub open spec fn numeric_core(s: Seq<char>) -> Seq<char> {
    let t = s.subrange(leading_non_numeric(s) as int, s.len() as int);
    t.subrange(0, t.len() - trailing_non_numeric(t))
}

proof fn lemma_leading_non_numeric(s: Seq<char>, i: int)
    requires
        0 <= i <= s.len(),
        forall|j: int| 0 <= j < i ==> !numeric_char(#[trigger] s[j]),
        i == s.len() || numeric_char(s[i]),
    ensures
        leading_non_numeric(s) == i,
    decreases i,
{
    if i > 0 {
        let t = s.drop_first();
        assert forall|j: int| 0 <= j < i - 1 implies !numeric_char(#[trigger] t[j]) by {
            assert(t[j] == s[j + 1]);
        }
        if i - 1 < t.len() {
            assert(t[i - 1] == s[i]);
        }
        lemma_leading_non_numeric(t, i - 1);
    }
}

proof fn lemma_trailing_non_numeric(s: Seq<char>, k: int)
    requires
        0 <= k <= s.len(),
        forall|j: int| s.len() - k <= j < s.len() ==> !numeric_char(#[trigger] s[j]),
        k == s.len() || numeric_char(s[s.len() - k - 1]),
    ensures
        trailing_non_numeric(s) == k,
    decreases k,
{
    if k > 0 {
        let t = s.drop_last();
        assert forall|j: int| t.len() - (k - 1) <= j < t.len() implies !numeric_char(#[trigger] t[j]) by {
            assert(t[j] == s[j]);
        }
        if k - 1 < t.len() {
            assert(t[t.len() - (k - 1) - 1] == s[s.len() - k - 1]);
        }
        lemma_trailing_non_numeric(t, k - 1);
    }
}

/// The characters of `w` without the non-numeric ones at either end.
pub fn numeric_core_of(w: &Vec<char>) -> (r: Vec<char>)
    ensures
        r@ == numeric_core(w@),
{
    let mut i: usize = 0;
    while i < w.len() && !char_is_numeric(w[i])
        invariant
            i <= w.len(),
            forall|j: int| 0 <= j < i ==> !numeric_char(#[trigger] w@[j]),
        decreases w.len() - i,
    {
        i = i + 1;
    }
    proof {
        lemma_leading_non_numeric(w@, i as int);
    }
    let ghost t = w@.subrange(i as int, w.len() as int);
    let mut e: usize = w.len();
    while e > i && !char_is_numeric(w[e - 1])
        invariant
            i <= e <= w.len(),
            t == w@.subrange(i as int, w.len() as int),
            forall|j: int| e <= j < w.len() ==> !numeric_char(#[trigger] w@[j]),
        decreases e - i,
    {
        e = e - 1;
    }
    proof {
        assert forall|j: int| t.len() - (w.len() - e) <= j < t.len() implies !numeric_char(#[trigger] t[j]) by {
            assert(t[j] == w@[i + j]);
        }
        if e > i {
            assert(t[t.len() - (w.len() - e) - 1] == w@[e - 1]);
        }
        lemma_trailing_non_numeric(t, (w.len() - e) as int);
    }
    let mut out: Vec<char> = Vec::new();
    let mut k: usize = i;
    while k < e
        invariant
            i <= k <= e <= w.len(),
            out@ == w@.subrange(i as int, k as int),
        decreases e - k,
    {
        out.push(w[k]);
        k = k + 1;
        assert(out@ =~= w@.subrange(i as int, k as int));
    }
    assert(out@ =~= numeric_core(w@));
    out
}

/// Whether `c` is an ASCII decimal digit.
pub open spec fn is_digit(c: char) -> bool {
    '0' <= c && c <= '9'
}

/// The value of a digit character.
pub open spec fn digit_value(c: char) -> nat {
    ((c as int) - ('0' as int)) as nat
}

/// The number that the decimal digits `s` write.
pub open spec fn digits_value(s: Seq<char>) -> nat
    decreases s.len(),
{
    if s.len() == 0 {
        0
    } else {
        digits_value(s.drop_last()) * 10 + digit_value(s.last())
    }
}

/// `s` without one leading `+`.
pub open spec fn unsigned_part(s: Seq<char>) -> Seq<char> {
    if s.len() > 0 && s[0] == '+' {
        s.drop_first()
    } else {
        s
    }
}

/// What `str::parse::<u8>` gives for `s`: an optional `+`, then one or more
/// decimal digits whose value is at most 255.
pub open spec fn parsed_u8(s: Seq<char>) -> Option<u8> {
    let d = unsigned_part(s);
    if d.len() > 0 && (forall|i: int| 0 <= i < d.len() ==> is_digit(#[trigger] d[i])) && digits_value(d)
        <= 255 {
        Some(digits_value(d) as u8)
    } else {
        None
    }
}

/// The byte that `s` writes in decimal, if any.
pub fn parse_u8(s: &Vec<char>) -> (r: Option<u8>)
    ensures
        r == parsed_u8(s@),
{
    let start: usize = if s.len() > 0 && s[0] == '+' {
        1
    } else {
        0
    };
    let ghost d = unsigned_part(s@);
    assert(d =~= s@.subrange(start as int, s.len() as int));
    if start >= s.len() {
        return None;
    }
    let mut v: u32 = 0;
    let mut over = false;
    let mut k: usize = start;
    while k < s.len()
        invariant
            start <= k <= s.len(),
            d == unsigned_part(s@),
            d == s@.subrange(start as int, s.len() as int),
            forall|j: int| 0 <= j < k - start ==> is_digit(#[trigger] d[j]),
            !over ==> v == digits_value(d.take(k - start)) && v <= 255,
            over ==> digits_value(d.take(k - start)) > 255,
        decreases s.len() - k,
    {
        let c = s[k];
        if !('0' <= c && c <= '9') {
            assert(!is_digit(d[k - start]));
            return None;
        }
        let ghost p = d.take(k - start);
        assert(d.take(k - start + 1).drop_last() =~= p);
        assert(d.take(k - start + 1).last() == c);
        if !over {
            let nv: u32 = v * 10 + ((c as u32) - ('0' as u32));
            assert(digit_value(c) == (c as u32) - ('0' as u32));
            if nv > 255 {
                over = true;
            } else {
                v = nv;
            }
        }
        k = k + 1;
    }
    assert(d.take(k - start) =~= d);
    if over {
        None
    } else {
        Some(v as u8)
    }
}

/// The score a word gives: the number among its numeric characters, if at most 100.
pub open spec fn word_score(w: Seq<char>) -> Option<u8> {
    match parsed_u8(numeric_core(w)) {
        Some(n) => if n <= 100 {
            Some(n)
        } else {
            None
        },
        None => None,
    }
}

/// The score of the first word of `ws` that gives one.
pub open spec fn first_word_score(ws: Seq<Seq<char>>) -> Option<u8>
    decreases ws.len(),
{
    if ws.len() == 0 {
        None
    } else {
        match word_score(ws[0]) {
            Some(n) => Some(n),
            None => first_word_score(ws.drop_first()),
        }
    }
}

/// Whether a line speaks of a score.
pub open spec fn mentions_score(l: Seq<char>) -> bool {
    has_infix(l, "评分"@) || has_infix(l, "Score"@) || has_infix(l, "score"@)
}

/// The score of the first line of `ls` that speaks of a score and gives one.
pub open spec fn first_line_score(ls: Seq<Seq<char>>) -> Option<u8>
    decreases ls.len(),
{
    if ls.len() == 0 {
        None
    } else if mentions_score(ls[0]) && first_word_score(words_text(ls[0])) is Some {
        first_word_score(words_text(ls[0]))
    } else {
        first_line_score(ls.drop_first())
    }
}

/// The score a review text states: on the first line that speaks of a score
/// ("评分", "Score" or "score") and has a word whose numeric part is a number up
/// to 100, that number.
pub open spec fn response_score(s: Seq<char>) -> Option<u8> {
    first_line_score(lines_text(s))
}

proof fn lemma_first_word_score_bound(ws: Seq<Seq<char>>)
    ensures
        first_word_score(ws) matches Some(n) ==> n <= 100,
    decreases ws.len(),
{
    if ws.len() > 0 {
        lemma_first_word_score_bound(ws.drop_first());
    }
}

/// A stated score is never above 100.
pub proof fn lemma_response_score_bound(ls: Seq<Seq<char>>)
    ensures
        first_line_score(ls) matches Some(n) ==> n <= 100,
    decreases ls.len(),
{
    if ls.len() > 0 {
        lemma_first_word_score_bound(words_text(ls[0]));
        lemma_response_score_bound(ls.drop_first());
    }
}

fn score_in_words(ws: &Vec<Vec<char>>) -> (r: Option<u8>)
    ensures
        r == first_word_score(ws@.map_values(|w: Vec<char>| w@)),
{
    let ghost all = ws@.map_values(|w: Vec<char>| w@);
    let mut i: usize = 0;
    assert(all.skip(0) =~= all);
    while i < ws.len()
        invariant
            i <= ws.len(),
            all == ws@.map_values(|w: Vec<char>| w@),
            first_word_score(all) == first_word_score(all.skip(i as int)),
        decreases ws.len() - i,
    {
        let core = numeric_core_of(&ws[i]);
        let parsed = parse_u8(&core);
        assert(all.skip(i as int)[0] == ws@[i as int]@);
        assert(all.skip(i as int).drop_first() =~= all.skip(i + 1));
        match parsed {
            Some(n) => {
                if n <= 100 {
                    return Some(n);
                }
            },
            None => {},
        }
        i = i + 1;
    }
    None
}

/// The score a review text states, if any (see `response_score`).
pub fn extract_score_from_response(response: &str) -> (r: Option<u8>)
    ensures
        r == response_score(response@),
        r matches Some(n) ==> n <= 100,
{
    proof {
        lemma_response_score_bound(lines_text(response@));
    }
    let lines = lines_of(response);
    let ghost ls = texts(lines@);
    let mut i: usize = 0;
    assert(ls.skip(0) =~= ls);
    while i < lines.len()
        invariant
            i <= lines.len(),
            ls == texts(lines@),
            ls == lines_text(response@),
            first_line_score(ls) == first_line_score(ls.skip(i as int)),
        decreases lines.len() - i,
    {
        let line = lines[i].as_str();
        assert(ls.skip(i as int)[0] == line@);
        assert(ls.skip(i as int).drop_first() =~= ls.skip(i + 1));
        if str_contains(line, "评分") || str_contains(line, "Score") || str_contains(line, "score") {
            let words = words_of(line);
            let found = score_in_words(&words);
            if found.is_some() {
                proof {
                    lemma_response_score_bound(ls);
                }
                return found;
            }
        }
        i = i + 1;
    }
    None
}

/// What a review works on, once the changes have been asked for.
pub enum ReviewInput {
    /// These changes.
    Changes(String),
    /// There are no changes to review.
    Unchanged,
    /// No changes could be read at all.
    Unavailable,
}

/// The heading put before the changes of the last commit.
pub open spec fn last_commit_heading() -> Seq<char> {
    "## 最后一次提交的变更 (Last Commit):\n"@
}

/// Whether `r` is what to review, given the working-tree changes (`None` where
/// they could not be read) and the changes of the last commit, asked only then
/// (`None` where those could not be read either): blank changes are no changes,
/// and those of the last commit come under a heading.
pub open spec fn chosen_input(r: ReviewInput, current: Option<Seq<char>>, last_commit: Option<Seq<char>>) -> bool {
    match current {
        Some(d) => if trim_text(d).len() == 0 {
            r is Unchanged
        } else {
            r matches ReviewInput::Changes(t) && t@ == d
        },
        None => match last_commit {
            Some(l) => if trim_text(l).len() == 0 {
                r is Unchanged
            } else {
                r matches ReviewInput::Changes(t) && t@ == last_commit_heading() + l
            },
            None => r is Unavailable,
        },
    }
}

/// The view of an optional string.
pub open spec fn opt_text(s: Option<String>) -> Option<Seq<char>> {
    match s {
        Some(t) => Some(t@),
        None => None,
    }
}

/// What to review (see `chosen_input`).
pub fn choose_review_input(current: Option<String>, last_commit: Option<String>) -> (r: ReviewInput)
    ensures
        chosen_input(r, opt_text(current), opt_text(last_commit)),
{
    match current {
        Some(d) => {
            if trim_str(d.as_str()).unicode_len() == 0 {
                ReviewInput::Unchanged
            } else {
                ReviewInput::Changes(d)
            }
        },
        None => match last_commit {
            Some(l) => {
                if trim_str(l.as_str()).unicode_len() == 0 {
                    ReviewInput::Unchanged
                } else {
                    let mut t = String::from_str("## 最后一次提交的变更 (Last Commit):\n");
                    t.append(l.as_str());
                    ReviewInput::Changes(t)
                }
            },
            None => ReviewInput::Unavailable,
        },
    }
}

/// Whether `r` is a successful review outcome with the given fields and no findings.
pub open spec fn plain_review(
    r: ReviewResult,
    message: Seq<char>,
    summary: Seq<char>,
    score: Option<u8>,
    recommendations: Seq<Seq<char>>,
) -> bool {
    &&& r.success
    &&& r.message@ == message
    &&& r.summary@ == summary
    &&& r.findings.len() == 0
    &&& r.score == score
    &&& texts(r.recommendations@) == recommendations
}

/// The outcome when there are no changes: nothing to review, full marks.
pub fn unchanged_review() -> (r: ReviewResult)
    ensures
        plain_review(r, "没有检测到代码变更"@, "没有需要评审的代码变更"@, Some(100u8), Seq::empty()),
        r.details.wf(),
        r.details@ == Map::<Seq<char>, String>::empty(),
{
    let recommendations: Vec<String> = Vec::new();
    assert(texts(recommendations@) =~= Seq::<Seq<char>>::empty());
    ReviewResult {
        success: true,
        message: String::from_str("没有检测到代码变更"),
        summary: String::from_str("没有需要评审的代码变更"),
        details: ConfigMap::new(),
        findings: Vec::new(),
        score: Some(100),
        recommendations,
    }
}

/// The advice given when no changes could be read.
pub open spec fn unavailable_advice() -> Seq<Seq<char>> {
    seq![
        "请确保仓库中至少有一个提交"@,
        "或者添加一些代码变更后再进行评审"@,
        "如果通过 MCP 调用，请在参数中设置 path 指向仓库根目录，或在仓库根目录启动 MCP 服务"@,
    ]
}

/// The outcome when no changes could be read: no score, advice on what to do,
/// and the working directory under `cwd` in the details where it is known.
pub fn unavailable_review(cwd: Option<String>) -> (r: ReviewResult)
    ensures
        plain_review(
            r,
            "无法获取代码变更，可能是新仓库、空仓库，或 MCP 服务不在 Git 仓库目录中运行"@,
            "没有可用的代码变更进行评审"@,
            None,
            unavailable_advice(),
        ),
        r.details.wf(),
        r.details@ == (match cwd {
            Some(d) => Map::<Seq<char>, String>::empty().insert("cwd"@, d),
            None => Map::<Seq<char>, String>::empty(),
        }),
{
    let mut details: ConfigMap<String> = ConfigMap::new();
    match cwd {
        Some(dir) => {
            details.insert(String::from_str("cwd"), dir);
        },
        None => {},
    }
    let recommendations = vec![
        String::from_str("请确保仓库中至少有一个提交"),
        String::from_str("或者添加一些代码变更后再进行评审"),
        String::from_str("如果通过 MCP 调用，请在参数中设置 path 指向仓库根目录，或在仓库根目录启动 MCP 服务"),
    ];
    assert(texts(recommendations@) =~= unavailable_advice());
    ReviewResult {
        success: true,
        message: String::from_str("无法获取代码变更，可能是新仓库、空仓库，或 MCP 服务不在 Git 仓库目录中运行"),
        summary: String::from_str("没有可用的代码变更进行评审"),
        details,
        findings: Vec::new(),
        score: None,
        recommendations,
    }
}

/// The outcome of a review found in the cache: its text as the summary, a score of 85.
pub fn cached_review(summary: String) -> (r: ReviewResult)
    ensures
        plain_review(r, "代码评审完成（缓存）"@, summary@, Some(85u8), Seq::empty()),
        r.details.wf(),
        r.details@ == Map::<Seq<char>, String>::empty(),
{
    let recommendations: Vec<String> = Vec::new();
    assert(texts(recommendations@) =~= Seq::<Seq<char>>::empty());
    ReviewResult {
        success: true,
        message: String::from_str("代码评审完成（缓存）"),
        summary,
        details: ConfigMap::new(),
        findings: Vec::new(),
        score: Some(85),
        recommendations,
    }
}

/// The hints shown about the state of the working tree before a review, one per
/// line (an empty one marks a blank line).
pub open spec fn staging_hint_lines(has_unstaged: bool, has_staged: bool, has_untracked: bool, has_commits: bool) -> Seq<
    Seq<char>,
> {
    if has_unstaged || has_untracked {
        (if has_unstaged {
            seq!["💡 提示：检测到未暂存的代码变更"@, "   使用 `git add .` 暂存所有变更，或使用 `git add <file>` 暂存特定文件"@]
        } else {
            Seq::empty()
        }) + (if has_untracked {
            seq!["💡 提示：检测到未跟踪的新文件"@, "   使用 `git add <file>` 开始跟踪这些文件"@]
        } else {
            Seq::empty()
        }) + (if has_staged {
            seq!["   当前已暂存的变更也会被评审"@]
        } else {
            Seq::empty()
        }) + (if !has_commits {
            seq!["   ⚠️ 当前仓库还没有任何提交（建议尽快 `git commit -m \"<msg>\"`）"@]
        } else {
            Seq::empty()
        }) + seq!["   📝 GitAI将分析所有变更（已暂存 + 未暂存 + 未跟踪）"@, ""@]
    } else if has_staged {
        seq!["✅ 已暂存的代码准备就绪"@, "   📝 GitAI将分析已暂存的变更"@]
    } else if !has_commits {
        seq!["💡 提示：仓库没有任何提交。请先进行一次提交以建立基线："@, "   git add -A && git commit -m \"init\""@]
    } else {
        seq!["🔍 检查未推送的提交..."@, "   📝 GitAI将分析最近的提交变更"@]
    }
}

fn push_line(lines: &mut Vec<String>, line: &str)
    ensures
        texts(final(lines)@) == texts(old(lines)@).push(line@),
{
    let ghost before = texts(lines@);
    lines.push(String::from_str(line));
    assert(texts(lines@) =~= before.push(line@));
}

/// The hints on the state of the working tree (see `staging_hint_lines`).
pub fn staging_hints(has_unstaged: bool, has_staged: bool, has_untracked: bool, has_commits: bool) -> (r: Vec<String>)
    ensures
        texts(r@) == staging_hint_lines(has_unstaged, has_staged, has_untracked, has_commits),
{
    let mut lines: Vec<String> = Vec::new();
    if has_unstaged || has_untracked {
        if has_unstaged {
            push_line(&mut lines, "💡 提示：检测到未暂存的代码变更");
            push_line(&mut lines, "   使用 `git add .` 暂存所有变更，或使用 `git add <file>` 暂存特定文件");
        }
        let ghost a = texts(lines@);
        if has_untracked {
            push_line(&mut lines, "💡 提示：检测到未跟踪的新文件");
            push_line(&mut lines, "   使用 `git add <file>` 开始跟踪这些文件");
        }
        let ghost b = texts(lines@);
        if has_staged {
            push_line(&mut lines, "   当前已暂存的变更也会被评审");
        }
        let ghost c = texts(lines@);
        if !has_commits {
            push_line(&mut lines, "   ⚠️ 当前仓库还没有任何提交（建议尽快 `git commit -m \"<msg>\"`）");
        }
        let ghost d = texts(lines@);
        push_line(&mut lines, "   📝 GitAI将分析所有变更（已暂存 + 未暂存 + 未跟踪）");
        push_line(&mut lines, "");
        assert(texts(lines@) =~= staging_hint_lines(has_unstaged, has_staged, has_untracked, has_commits));
    } else if has_staged {
        push_line(&mut lines, "✅ 已暂存的代码准备就绪");
        push_line(&mut lines, "   📝 GitAI将分析已暂存的变更");
        assert(texts(lines@) =~= staging_hint_lines(has_unstaged, has_staged, has_untracked, has_commits));
    } else if !has_commits {
        push_line(&mut lines, "💡 提示：仓库没有任何提交。请先进行一次提交以建立基线：");
        push_line(&mut lines, "   git add -A && git commit -m \"init\"");
        assert(texts(lines@) =~= staging_hint_lines(has_unstaged, has_staged, has_untracked, has_commits));
    } else {
        push_line(&mut lines, "🔍 检查未推送的提交...");
        push_line(&mut lines, "   📝 GitAI将分析最近的提交变更");
        assert(texts(lines@) =~= staging_hint_lines(has_unstaged, has_staged, has_untracked, has_commits));
    }
    lines
}

/// The request put to the model: the changes, the structure found in them and
/// the insight from the dependency graph where there are any, what to answer,
/// and, where issues are known, their text and what to check against them.
pub open spec fn review_prompt(diff: Seq<char>, structure: Option<Seq<char>>, dependency: Option<Seq<char>>, issues: Seq<char>) -> Seq<char> {
    "请对以下代码变更进行详细评审：\n\n"@ + diff + "\n\n"@ + (match structure {
        Some(t) => "\n结构分析结果：\n"@ + t + "\n"@,
        None => Seq::empty(),
    }) + (match dependency {
        Some(t) => "\n依赖图关键洞察：\n"@ + t + "\n"@,
        None => Seq::empty(),
    }) + "请提供：\n1. 代码质量评估\n2. 潜在问题和风险\n3. 改进建议\n4. 总体评分（1-100）\n"@ + (if issues.len() == 0 {
        Seq::empty()
    } else {
        "\n相关 Issue 上下文：\n"@ + issues + "\n"@
            + "\n请基于上述 Issue 上下文，对以下方面进行偏离度分析：\n1. 代码变更是否覆盖 Issue 中的关键任务点与验收标准；\n2. 是否存在与 Issue 无关的改动或偏离预期的实现；\n3. 给出偏离项清单与建议收敛方案；\n"@
    })
}

/// The view of an optional text.
pub open spec fn opt_str(s: Option<&str>) -> Option<Seq<char>> {
    match s {
        Some(t) => Some(t@),
        None => None,
    }
}

/// The request put to the model (see `review_prompt`).
pub fn build_review_prompt(diff: &str, structure: Option<&str>, dependency: Option<&str>, issues: &str) -> (r: String)
    ensures
        r@ == review_prompt(diff@, opt_str(structure), opt_str(dependency), issues@),
{
    let mut p = String::from_str("请对以下代码变更进行详细评审：\n\n");
    p.append(diff);
    p.append("\n\n");
    let ghost a = p@;
    match structure {
        Some(t) => {
            p.append("\n结构分析结果：\n");
            p.append(t);
            p.append("\n");
        },
        None => {},
    }
    let ghost b = p@;
    match dependency {
        Some(t) => {
            p.append("\n依赖图关键洞察：\n");
            p.append(t);
            p.append("\n");
        },
        None => {},
    }
    let ghost c = p@;
    p.append("请提供：\n1. 代码质量评估\n2. 潜在问题和风险\n3. 改进建议\n4. 总体评分（1-100）\n");
    let ghost d = p@;
    if issues.unicode_len() > 0 {
        p.append("\n相关 Issue 上下文：\n");
        p.append(issues);
        p.append("\n");
        p.append(
            "\n请基于上述 Issue 上下文，对以下方面进行偏离度分析：\n1. 代码变更是否覆盖 Issue 中的关键任务点与验收标准；\n2. 是否存在与 Issue 无关的改动或偏离预期的实现；\n3. 给出偏离项清单与建议收敛方案；\n",
        );
    }
    assert(p@ =~= review_prompt(diff@, opt_str(structure), opt_str(dependency), issues@));
    p
}

/// The points taken off for changed nodes that are critical in the dependency
/// graph: five per node, the count taken as a byte (modulo 256), at most 255.
pub open spec fn critical_penalty(critical_hits: usize) -> u8 {
    let n = critical_hits as u8;
    if n * 5 > 255 {
        255
    } else {
        (n * 5) as u8
    }
}

/// The points taken off for changed critical nodes (see `critical_penalty`).
pub fn dependency_penalty(critical_hits: usize) -> (r: u8)
    ensures
        r == critical_penalty(critical_hits),
{
    let n: u8 = critical_hits as u8;
    let m: u16 = (n as u16) * 5;
    if m > 255 {
        255
    } else {
        m as u8
    }
}

/// Whether a finding is of critical or high severity.
pub open spec fn is_severe(f: Finding) -> bool {
    f.severity == Severity::Critical || f.severity == Severity::High
}

/// Number of the first `n` findings that are critical or high.
pub open spec fn severe_count(fs: Seq<Finding>, n: int) -> nat
    decreases n,
{
    if n <= 0 {
        0
    } else {
        severe_count(fs, n - 1) + (if is_severe(fs[n - 1]) {
            1nat
        } else {
            0nat
        })
    }
}

proof fn lemma_severe_count_bound(fs: Seq<Finding>, n: int)
    requires
        0 <= n,
    ensures
        severe_count(fs, n) <= n,
    decreases n,
{
    if n > 0 {
        lemma_severe_count_bound(fs, n - 1);
    }
}

/// `a - b`, or 0 where `b` is larger.
pub open spec fn minus_floor(a: u8, b: u8) -> u8 {
    if b > a {
        0
    } else {
        (a - b) as u8
    }
}

/// The score of a review: the one its text states, else 85; ten points off per
/// critical or high security finding (that number of points taken as a byte,
/// modulo 256), then the dependency penalty, never below 0.
pub open spec fn final_score(response: Seq<char>, security: Seq<Finding>, penalty: u8) -> u8 {
    let stated = match response_score(response) {
        Some(n) => n,
        None => 85u8,
    };
    let after_security = minus_floor(stated, ((severe_count(security, security.len() as int) * 10) as usize) as u8);
    minus_floor(after_security, penalty)
}

/// The score of a review (see `final_score`).
pub fn review_score(response: &str, security: &Vec<Finding>, penalty: u8) -> (r: u8)
    requires
        security.len() * 10 <= usize::MAX,
    ensures
        r == final_score(response@, security@, penalty),
        r <= 100,
{
    proof {
        lemma_response_score_bound(lines_text(response@));
    }
    let stated = match extract_score_from_response(response) {
        Some(n) => n,
        None => 85,
    };
    let mut count: usize = 0;
    let mut i: usize = 0;
    while i < security.len()
        invariant
            i <= security.len(),
            count == severe_count(security@, i as int),
            count <= i,
        decreases security.len() - i,
    {
        let sev = security[i].severity;
        if matches!(sev, Severity::Critical) || matches!(sev, Severity::High) {
            count = count + 1;
        }
        i = i + 1;
    }
    let off: u8 = (count * 10) as u8;
    let after_security = stated.saturating_sub(off);
    after_security.saturating_sub(penalty)
}

proof fn lemma_severe_count_push(fs: Seq<Finding>, x: Finding, n: int)
    requires
        0 <= n <= fs.len(),
    ensures
        severe_count(fs.push(x), n) == severe_count(fs, n),
    decreases n,
{
    if n > 0 {
        lemma_severe_count_push(fs, x, n - 1);
        assert(fs.push(x)[n - 1] == fs[n - 1]);
    }
}

/// The score a review states, or 85 where it states none.
pub open spec fn stated_score(response: Seq<char>) -> u8 {
    match response_score(response) {
        Some(n) => n,
        None => 85u8,
    }
}

/// A security finding that is neither critical nor high never changes the
/// score of a review.
pub proof fn lemma_minor_finding_keeps_score(response: Seq<char>, security: Seq<Finding>, f: Finding, penalty: u8)
    requires
        f.severity != Severity::Critical,
        f.severity != Severity::High,
    ensures
        final_score(response, security.push(f), penalty) == final_score(response, security, penalty),
{
    lemma_severe_count_push(security, f, security.len() as int);
}

/// Each critical or high security finding takes ten points off the score (not
/// below 0), as long as there are fewer than 25 findings.
pub proof fn lemma_severe_finding_costs_ten(response: Seq<char>, security: Seq<Finding>, f: Finding, penalty: u8)
    requires
        f.severity == Severity::Critical || f.severity == Severity::High,
        security.len() < 25,
    ensures
        final_score(response, security.push(f), penalty) == (if final_score(response, security, penalty) >= 10 {
            final_score(response, security, penalty) - 10
        } else {
            0
        }),
{
    lemma_severe_count_push(security, f, security.len() as int);
    lemma_severe_count_bound(security, security.len() as int);
    let c = severe_count(security, security.len() as int);
    assert(severe_count(security.push(f), (security.len() + 1) as int) == c + 1);
    assert(((c * 10) as usize) as u8 == c * 10);
    assert((((c + 1) * 10) as usize) as u8 == c * 10 + 10);
}

/// Without security findings the score is the stated one (or 85) less the
/// dependency penalty, not below 0.
pub proof fn lemma_score_without_findings(response: Seq<char>, penalty: u8)
    ensures
        final_score(response, Seq::empty(), penalty) == (if stated_score(response) >= penalty {
            stated_score(response) - penalty
        } else {
            0
        }),
{
}

/// The details of a completed review: the review under `review_result`,
/// `tree_sitter` as `true` where structure was analyzed, and the number of
/// security findings under `security_findings_count` where there are any.
pub open spec fn completed_details(d: ConfigMap<String>, summary: Seq<char>, tree_sitter: bool, security_count: nat) -> bool {
    &&& d.wf()
    &&& d@.contains_key("review_result"@) && d@["review_result"@]@ == summary
    &&& d@.contains_key("tree_sitter"@) == tree_sitter
    &&& tree_sitter ==> d@["tree_sitter"@]@ == "true"@
    &&& d@.contains_key("security_findings_count"@) == (security_count > 0)
    &&& security_count > 0 ==> d@["security_findings_count"@]@ == decimal_text(security_count)
    &&& forall|k: Seq<char>|
        #[trigger] d@.contains_key(k) ==> k == "review_result"@ || k == "tree_sitter"@ || k
            == "security_findings_count"@
}

/// The outcome of a completed review: the review text as summary, the
/// security findings, the score (see `final_score`) and the details (see
/// `completed_details`).
pub fn completed_review(summary: String, tree_sitter: bool, security: Vec<Finding>, penalty: u8) -> (r: ReviewResult)
    requires
        security.len() * 10 <= usize::MAX,
    ensures
        r.success,
        r.message@ == "代码评审完成"@,
        r.summary@ == summary@,
        completed_details(r.details, summary@, tree_sitter, security.len() as nat),
        r.findings@ == security@,
        r.score == Some(final_score(summary@, security@, penalty)),
        r.recommendations.len() == 0,
{
    let score = review_score(summary.as_str(), &security, penalty);
    let mut details: ConfigMap<String> = ConfigMap::new();
    details.insert(String::from_str("review_result"), summary.clone());
    if tree_sitter {
        details.insert(String::from_str("tree_sitter"), String::from_str("true"));
    }
    if security.len() > 0 {
        details.insert(String::from_str("security_findings_count"), format_decimal(security.len() as u64));
    }
    proof {
        reveal_strlit("review_result");
        reveal_strlit("tree_sitter");
        reveal_strlit("security_findings_count");
        assert("review_result"@[0] != "tree_sitter"@[0]);
        assert("review_result"@[0] != "security_findings_count"@[0]);
        assert("tree_sitter"@[0] != "security_findings_count"@[0]);
    }
    ReviewResult {
        success: true,
        message: String::from_str("代码评审完成"),
        summary,
        details,
        findings: security,
        score: Some(score),
        recommendations: Vec::new(),
    }
}

} // verus!
