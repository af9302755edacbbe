use crate::text::{has_infix, has_prefix, str_contains, str_starts_with, texts};
use vstd::prelude::*;

verus! {

/// Category of a review rule.
#[derive(Debug, Clone, Copy, PartialEq, Eq, Hash, Structural)]
pub enum RuleCategory {
    /// Code style.
    Style,
    /// Security.
    Security,
    /// Performance.
    Performance,
    /// Code complexity.
    Complexity,
    /// Best practices.
    BestPractices,
    /// Potential bugs.
    Bugs,
}

/// Severity of an issue.
#[derive(Debug, Clone, Copy, PartialEq, Eq, Hash, Structural)]
pub enum Severity {
    /// Critical issues that need fixing now.
    Error,
    /// Issues that should be fixed.
    Warning,
    /// Room for improvement.
    Info,
    /// Minor suggestions.
    Hint,
}

/// How deep an analysis goes.
#[derive(Debug, Clone, Copy, PartialEq, Eq, Hash, Structural)]
pub enum AnalysisDepth {
    /// Basic.
    Basic,
    /// Normal.
    Normal,
    /// Deep.
    Deep,
}

/// One result of a simple review.
pub struct SimpleReviewResult {
    /// Title.
    pub title: String,
    /// Content.
    pub content: String,
    /// Severity.
    pub severity: Severity,
}

/// Checks changed lines by plain rules.
pub struct SimpleReviewer;

/// Number of bytes of the UTF-8 encoding of `c`.
pub open spec fn utf8_width(c: char) -> nat {
    if (c as u32) < 0x80 {
        1
    } else if (c as u32) < 0x800 {
        2
    } else if (c as u32) < 0x10000 {
        3
    } else {
        4
    }
}

/// Number of bytes of the UTF-8 encoding of `s`, as `str::len` gives it.
pub open spec fn utf8_len(s: Seq<char>) -> nat
    decreases s.len(),
{
    if s.len() == 0 {
        0
    } else {
        utf8_len(s.drop_last()) + utf8_width(s.last())
    }
}

/// Number of bytes of the UTF-8 encoding of `s`.
pub fn byte_len(s: &str) -> (r: usize)
    requires
        utf8_len(s@) <= usize::MAX,
    ensures
        r == utf8_len(s@),
{
    let cs = crate::text::chars_of(s);
    let mut n: usize = 0;
    let mut i: usize = 0;
    while i < cs.len()
        invariant
            i <= cs.len(),
            cs@ == s@,
            n == utf8_len(cs@.take(i as int)),
            utf8_len(s@) <= usize::MAX,
        decreases cs.len() - i,
    {
        assert(cs@.take(i + 1).drop_last() =~= cs@.take(i as int));
        proof {
            lemma_utf8_len_prefix(cs@, i + 1);
        }
        let c = cs[i];
        let w: usize = if (c as u32) < 0x80 {
            1
        } else if (c as u32) < 0x800 {
            2
        } else if (c as u32) < 0x10000 {
            3
        } else {
            4
        };
        n = n + w;
        i = i + 1;
    }
    assert(cs@.take(i as int) =~= cs@);
    n
}

proof fn lemma_utf8_len_prefix(s: Seq<char>, k: int)
    requires
        0 <= k <= s.len(),
    ensures
        utf8_len(s.take(k)) <= utf8_len(s),
    decreases s.len() - k,
{
    if k < s.len() {
        lemma_utf8_len_prefix(s, k + 1);
        assert(s.take(k + 1).drop_last() =~= s.take(k));
    } else {
        assert(s.take(k) =~= s);
    }
}

/// Whether an added line seems to hold a credential.
pub open spec fn holds_credential(l: Seq<char>) -> bool {
    has_prefix(l, "+"@) && (has_infix(l, "password"@) || has_infix(l, "secret"@) || has_infix(l, "token"@)
        || has_infix(l, "api_key"@))
}

/// Whether an added line is longer than 100 bytes.
pub open spec fn too_long(l: Seq<char>) -> bool {
    has_prefix(l, "+"@) && utf8_len(l) > 100
}

/// What the rules find in one line: a credential, then a long line.
pub open spec fn line_findings(l: Seq<char>) -> Seq<(Seq<char>, Seq<char>, Severity)> {
    (if holds_credential(l) {
        seq![("检测到硬编码凭证"@, "代码中可能包含硬编码的敏感信息，建议使用环境变量或配置文件存储"@, Severity::Error)]
    } else {
        Seq::empty()
    }) + (if too_long(l) {
        seq![("行长度过长"@, "检测到长度超过 100 字符的行，建议拆分以提高可读性"@, Severity::Info)]
    } else {
        Seq::empty()
    })
}

/// What the rules find in the lines, in order.
pub open spec fn lines_findings(ls: Seq<Seq<char>>) -> Seq<(Seq<char>, Seq<char>, Severity)>
    decreases ls.len(),
{
    if ls.len() == 0 {
        Seq::empty()
    } else {
        lines_findings(ls.drop_last()) + line_findings(ls.last())
    }
}

/// The results of a simple review of the lines: what the rules find, or one
/// note that the code looks good when they find nothing.
pub open spec fn simple_review_of(ls: Seq<Seq<char>>) -> Seq<(Seq<char>, Seq<char>, Severity)> {
    if lines_findings(ls).len() == 0 {
        seq![("代码质量良好"@, "未发现明显问题，代码质量良好"@, Severity::Info)]
    } else {
        lines_findings(ls)
    }
}

/// The view of a simple review result.
pub open spec fn result_view(r: SimpleReviewResult) -> (Seq<char>, Seq<char>, Severity) {
    (r.title@, r.content@, r.severity)
}

fn push_result(out: &mut Vec<SimpleReviewResult>, title: &str, content: &str, severity: Severity)
    ensures
        final(out)@.map_values(|r: SimpleReviewResult| result_view(r)) == old(out)@.map_values(
            |r: SimpleReviewResult| result_view(r),
        ).push((title@, content@, severity)),
{
    let ghost before = out@.map_values(|r: SimpleReviewResult| result_view(r));
    out.push(SimpleReviewResult { title: String::from_str(title), content: String::from_str(content), severity });
    assert(out@.map_values(|r: SimpleReviewResult| result_view(r)) =~= before.push((title@, content@, severity)));
}

impl SimpleReviewer {
    /// A new instance.
    pub fn new() -> (r: Self)
        ensures
            r == SimpleReviewer,
    {
        SimpleReviewer
    }

    /// Reviews the lines of the changed hunks, in order (see `simple_review_of`).
    pub fn review(&self, lines: &Vec<String>) -> (r: Vec<SimpleReviewResult>)
        requires
            forall|i: int| 0 <= i < lines.len() ==> utf8_len(#[trigger] lines@[i]@) <= usize::MAX,
        ensures
            r@.map_values(|x: SimpleReviewResult| result_view(x)) == simple_review_of(texts(lines@)),
    {
        let ghost ls = texts(lines@);
        let mut out: Vec<SimpleReviewResult> = Vec::new();
        let mut i: usize = 0;
        assert(out@.map_values(|x: SimpleReviewResult| result_view(x)) =~= lines_findings(ls.take(0)));
        while i < lines.len()
            invariant
                i <= lines.len(),
                ls == texts(lines@),
                forall|k: int| 0 <= k < lines.len() ==> utf8_len(#[trigger] lines@[k]@) <= usize::MAX,
                out@.map_values(|x: SimpleReviewResult| result_view(x)) == lines_findings(ls.take(i as int)),
            decreases lines.len() - i,
        {
            let l = lines[i].as_str();
            assert(ls.take(i + 1).drop_last() =~= ls.take(i as int));
            assert(ls.take(i + 1).last() == l@);
            let ghost before = out@.map_values(|x: SimpleReviewResult| result_view(x));
            let added = str_starts_with(l, "+");
            if added && (str_contains(l, "password") || str_contains(l, "secret") || str_contains(l, "token")
                || str_contains(l, "api_key")) {
                push_result(
                    &mut out,
                    "检测到硬编码凭证",
                    "代码中可能包含硬编码的敏感信息，建议使用环境变量或配置文件存储",
                    Severity::Error,
                );
            }
            let ghost mid = out@.map_values(|x: SimpleReviewResult| result_view(x));
            if added && byte_len(l) > 100 {
                push_result(&mut out, "行长度过长", "检测到长度超过 100 字符的行，建议拆分以提高可读性", Severity::Info);
            }
            assert(out@.map_values(|x: SimpleReviewResult| result_view(x)) =~= before + line_findings(l@));
            i = i + 1;
        }
        assert(ls.take(i as int) =~= ls);
        if out.len() == 0 {
            push_result(&mut out, "代码质量良好", "未发现明显问题，代码质量良好", Severity::Info);
            assert(out@.map_values(|x: SimpleReviewResult| result_view(x)) =~= simple_review_of(ls));
        }
        out
    }
}

} // verus!
