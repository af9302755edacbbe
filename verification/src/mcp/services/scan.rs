use crate::scan::{opt_view, Finding as ScanFinding};
use crate::prompts::{join_path, join_str};
use crate::text::{decimal_text, format_decimal, has_prefix, same_text, str_starts_with, texts};
use vstd::prelude::*;

verus! {

/// How severe a finding of the scan service is.
#[derive(Debug, Clone, Copy, PartialEq, Eq, Structural)]
pub enum Severity {
    /// Error.
    Error,
    /// Warning.
    Warning,
    /// Information.
    Info,
}

/// A finding as the scan service reports it.
pub struct Finding {
    /// Title.
    pub title: String,
    /// File.
    pub file_path: String,
    /// Line.
    pub line: usize,
    /// Severity.
    pub severity: Severity,
    /// Rule that found it.
    pub rule_id: String,
    /// Description.
    pub description: String,
    /// How to fix it.
    pub suggestion: Option<String>,
    /// Code in question.
    pub code_snippet: Option<String>,
}

/// What a scan is asked to do.
pub struct ScanParams {
    /// Path to scan.
    pub path: String,
    /// Scanner, if not the default.
    pub tool: Option<String>,
    /// Language to restrict to.
    pub lang: Option<String>,
    /// Timeout in seconds, if not the default.
    pub timeout: Option<u64>,
}

/// The scan service: its default scanner and timeout.
pub struct ScanService {
    /// Scanner used when none is asked for.
    pub default_tool: String,
    /// Timeout used when none is asked for, in seconds.
    pub default_timeout: u64,
}

impl ScanService {
    /// The service with the scanner and timeout its configuration gives, where
    /// it has a scan section; else OpenGrep with 300 seconds.
    pub fn new(configured: Option<(String, u64)>) -> (r: Self)
        ensures
            configured matches Some(c) ==> r.default_tool == c.0 && r.default_timeout == c.1,
            configured is None ==> r.default_tool@ == "opengrep"@ && r.default_timeout == 300,
    {
        match configured {
            Some(c) => ScanService { default_tool: c.0, default_timeout: c.1 },
            None => ScanService { default_tool: String::from_str("opengrep"), default_timeout: 300 },
        }
    }

    /// The scanner to use: the one asked for, else the default.
    pub fn effective_tool(&self, params: &ScanParams) -> (r: String)
        ensures
            r@ == (match params.tool {
                Some(t) => t@,
                None => self.default_tool@,
            }),
    {
        match &params.tool {
            Some(t) => t.clone(),
            None => self.default_tool.clone(),
        }
    }

    /// The timeout to use: the one asked for, else the default.
    pub fn effective_timeout(&self, params: &ScanParams) -> (r: u64)
        ensures
            r == (match params.timeout {
                Some(t) => t,
                None => self.default_timeout,
            }),
    {
        match params.timeout {
            Some(t) => t,
            None => self.default_timeout,
        }
    }
}

/// Whether the scanner can be used: only OpenGrep is supported.
pub fn check_tool(tool: &str) -> (r: Result<(), String>)
    ensures
        tool@ == "opengrep"@ ==> r is Ok,
        tool@ != "opengrep"@ ==> (r matches Err(e) && e@ == "不支持的扫描工具: "@ + tool@),
{
    if same_text(tool, "opengrep") {
        Ok(())
    } else {
        let mut e = String::from_str("不支持的扫描工具: ");
        e.append(tool);
        Err(e)
    }
}

/// The severity a scanner's name for it stands for: `ERROR`/`error`,
/// `WARNING`/`warning`, anything else information.
pub open spec fn severity_of_name(s: Seq<char>) -> Severity {
    if s == "ERROR"@ || s == "error"@ {
        Severity::Error
    } else if s == "WARNING"@ || s == "warning"@ {
        Severity::Warning
    } else {
        Severity::Info
    }
}

/// Whether `g` is how the service reports scan finding `f`.
pub open spec fn reported(f: ScanFinding, g: Finding) -> bool {
    &&& g.title@ == f.title@
    &&& g.file_path@ == f.file_path@
    &&& g.line == f.line
    &&& g.severity == severity_of_name(f.severity@)
    &&& g.rule_id@ == (match f.rule_id {
        Some(r) => r@,
        None => "unknown"@,
    })
    &&& g.description@ == "发现安全问题的代码段"@
    &&& g.suggestion is None
    &&& opt_view(g.code_snippet) == opt_view(f.code_snippet)
}

/// How the service reports a scan finding (see `reported`).
pub fn convert_finding(f: &ScanFinding) -> (r: Finding)
    ensures
        reported(*f, r),
{
    let s = f.severity.as_str();
    let severity = if same_text(s, "ERROR") || same_text(s, "error") {
        Severity::Error
    } else if same_text(s, "WARNING") || same_text(s, "warning") {
        Severity::Warning
    } else {
        Severity::Info
    };
    Finding {
        title: f.title.clone(),
        file_path: f.file_path.clone(),
        line: f.line,
        severity,
        rule_id: match &f.rule_id {
            Some(r) => r.clone(),
            None => String::from_str("unknown"),
        },
        description: String::from_str("发现安全问题的代码段"),
        suggestion: None,
        code_snippet: match &f.code_snippet {
            Some(c) => Some(c.clone()),
            None => None,
        },
    }
}

/// How the service reports the scan findings, in order.
pub fn convert_findings(findings: &Vec<ScanFinding>) -> (r: Vec<Finding>)
    ensures
        r.len() == findings.len(),
        forall|i: int| 0 <= i < r.len() ==> reported(findings@[i], #[trigger] r@[i]),
{
    let mut out: Vec<Finding> = Vec::new();
    let mut i: usize = 0;
    while i < findings.len()
        invariant
            i <= findings.len(),
            out.len() == i,
            forall|k: int| 0 <= k < i ==> reported(findings@[k], #[trigger] out@[k]),
        decreases findings.len() - i,
    {
        out.push(convert_finding(&findings[i]));
        i = i + 1;
    }
    out
}

/// Number of findings by severity.
pub struct SeverityCounts {
    /// Errors.
    pub error: usize,
    /// Warnings.
    pub warning: usize,
    /// Information.
    pub info: usize,
}

/// Number of the first `k` findings of severity `s`.
pub open spec fn count_of(fs: Seq<Finding>, s: Severity, k: int) -> nat
    decreases k,
{
    if k <= 0 {
        0
    } else {
        count_of(fs, s, k - 1) + (if fs[k - 1].severity == s {
            1nat
        } else {
            0nat
        })
    }
}

proof fn lemma_counts_sum(fs: Seq<Finding>, k: int)
    requires
        0 <= k <= fs.len(),
    ensures
        count_of(fs, Severity::Error, k) + count_of(fs, Severity::Warning, k) + count_of(fs, Severity::Info, k) == k,
    decreases k,
{
    if k > 0 {
        lemma_counts_sum(fs, k - 1);
    }
}

/// How many findings there are of each severity; they add up to all findings.
pub fn count_by_severity(findings: &Vec<Finding>) -> (r: SeverityCounts)
    ensures
        r.error == count_of(findings@, Severity::Error, findings.len() as int),
        r.warning == count_of(findings@, Severity::Warning, findings.len() as int),
        r.info == count_of(findings@, Severity::Info, findings.len() as int),
        r.error + r.warning + r.info == findings.len(),
{
    let mut c = SeverityCounts { error: 0, warning: 0, info: 0 };
    let mut i: usize = 0;
    while i < findings.len()
        invariant
            i <= findings.len(),
            c.error == count_of(findings@, Severity::Error, i as int),
            c.warning == count_of(findings@, Severity::Warning, i as int),
            c.info == count_of(findings@, Severity::Info, i as int),
        decreases findings.len() - i,
    {
        proof {
            lemma_counts_sum(findings@, i as int);
        }
        match findings[i].severity {
            Severity::Error => c.error = c.error + 1,
            Severity::Warning => c.warning = c.warning + 1,
            Severity::Info => c.info = c.info + 1,
        }
        i = i + 1;
    }
    proof {
        lemma_counts_sum(findings@, findings.len() as int);
    }
    c
}

/// Whether a scan counts as done, and what is said of it: done unless it
/// failed and found nothing; the count of findings, with the scanner's error
/// where there was one.
pub open spec fn scan_outcome_of(error: Option<Seq<char>>, count: nat) -> (bool, Seq<char>) {
    match error {
        None => (true, "扫描完成，发现 "@ + decimal_text(count) + " 个问题"@),
        Some(e) => if count > 0 {
            (true, "扫描完成，发现 "@ + decimal_text(count) + " 个问题（有警告: "@ + e + "）"@)
        } else {
            (false, "扫描完成，但有错误: "@ + e)
        },
    }
}

/// Whether a scan counts as done, and its message (see `scan_outcome_of`).
pub fn scan_outcome(error: &Option<String>, count: usize) -> (r: (bool, String))
    ensures
        r.0 == scan_outcome_of(opt_view(*error), count as nat).0,
        r.1@ == scan_outcome_of(opt_view(*error), count as nat).1,
{
    match error {
        None => {
            let mut m = String::from_str("扫描完成，发现 ");
            m.append(format_decimal(count as u64).as_str());
            m.append(" 个问题");
            (true, m)
        },
        Some(e) => {
            if count > 0 {
                let mut m = String::from_str("扫描完成，发现 ");
                m.append(format_decimal(count as u64).as_str());
                m.append(" 个问题（有警告: ");
                m.append(e.as_str());
                m.append("）");
                (true, m)
            } else {
                let mut m = String::from_str("扫描完成，但有错误: ");
                m.append(e.as_str());
                (false, m)
            }
        },
    }
}

/// Where a relative scan path is looked for, in order: under the working
/// directory `cwd`; then, where the home directory is known, under its
/// `Projects`, and for a path starting with `../` under `Projects/gitai`.
pub open spec fn scan_path_candidates_of(path: Seq<char>, cwd: Seq<char>, home: Option<Seq<char>>) -> Seq<Seq<char>> {
    let first = seq![join_path(cwd, path)];
    match home {
        None => first,
        Some(h) => {
            let second = first.push(join_path(join_path(h, "Projects"@), path));
            if has_prefix(path, "../"@) {
                second.push(join_path(join_path(h, "Projects/gitai"@), path))
            } else {
                second
            }
        },
    }
}

/// The places a relative scan path is looked for (see `scan_path_candidates_of`).
pub fn scan_path_candidates(path: &str, cwd: &str, home: Option<&str>) -> (r: Vec<String>)
    ensures
        texts(r@) == scan_path_candidates_of(
            path@,
            cwd@,
            match home {
                Some(h) => Some(h@),
                None => None,
            },
        ),
{
    let mut r: Vec<String> = Vec::new();
    r.push(join_str(cwd, path));
    match home {
        None => {},
        Some(h) => {
            let projects = join_str(h, "Projects");
            r.push(join_str(projects.as_str(), path));
            if str_starts_with(path, "../") {
                let gitai = join_str(h, "Projects/gitai");
                r.push(join_str(gitai.as_str(), path));
            }
        },
    }
    assert(texts(r@) =~= scan_path_candidates_of(
        path@,
        cwd@,
        match home {
            Some(h) => Some(h@),
            None => None,
        },
    ));
    r
}

/// The first of `candidates`, from place `i` on, that exists, if any.
pub open spec fn first_existing(candidates: Seq<Seq<char>>, exists: Seq<bool>, i: int) -> Option<Seq<char>>
    decreases candidates.len() - i,
{
    if i < 0 || i >= candidates.len() {
        None
    } else if exists[i] {
        Some(candidates[i])
    } else {
        first_existing(candidates, exists, i + 1)
    }
}

/// The path a scan works on: an absolute path as it is; a relative one at the
/// first of its candidate places that exists, else as it was given.
pub open spec fn resolved_scan_path(path: Seq<char>, candidates: Seq<Seq<char>>, exists: Seq<bool>) -> Seq<char> {
    if has_prefix(path, "/"@) {
        path
    } else {
        match first_existing(candidates, exists, 0) {
            Some(p) => p,
            None => path,
        }
    }
}

/// The path a scan works on (see `resolved_scan_path`), given which of the
/// candidate places exist.
pub fn resolve_scan_path(path: &str, candidates: &Vec<String>, exists: &Vec<bool>) -> (r: String)
    requires
        exists.len() == candidates.len(),
    ensures
        r@ == resolved_scan_path(path@, texts(candidates@), exists@),
{
    if str_starts_with(path, "/") {
        return String::from_str(path);
    }
    let ghost cs = texts(candidates@);
    let mut i: usize = 0;
    while i < candidates.len()
        invariant
            i <= candidates.len(),
            exists.len() == candidates.len(),
            cs == texts(candidates@),
            first_existing(cs, exists@, 0) == first_existing(cs, exists@, i as int),
            !has_prefix(path@, "/"@),
        decreases candidates.len() - i,
    {
        if exists[i] {
            let c = candidates[i].clone();
            assert(cs[i as int] == candidates@[i as int]@);
            assert(first_existing(cs, exists@, i as int) == Some(cs[i as int]));
            assert(c@ == cs[i as int]);
            assert(!has_prefix(path@, "/"@));
            return c;
        }
        i = i + 1;
    }
    assert(first_existing(cs, exists@, i as int) is None);
    String::from_str(path)
}

/// The error of a scan whose path does not exist.
pub fn scan_path_missing(path: &str, resolved: &str) -> (r: String)
    ensures
        r@ == "扫描路径不存在: "@ + path@ + " (解析后: "@ + resolved@ + ")"@,
{
    let mut m = String::from_str("扫描路径不存在: ");
    m.append(path);
    m.append(" (解析后: ");
    m.append(resolved);
    m.append(")");
    m
}

} // verus!
