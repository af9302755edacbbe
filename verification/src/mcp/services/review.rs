use crate::review::types::{Finding as ReviewFinding, ReviewConfig, Severity as ReviewSeverity};
use crate::scan::opt_view;
use crate::text::{has_infix, has_suffix, str_contains, str_ends_with, texts};
use vstd::prelude::*;

verus! {

/// How severe a finding of the review service is.
#[derive(Debug, Clone, Copy, PartialEq, Eq, Structural)]
pub enum Severity {
    /// Error.
    Error,
    /// Warning.
    Warning,
    /// Information.
    Info,
}

/// A finding as the review service reports it.
pub struct Finding {
    /// Title.
    pub title: String,
    /// Severity.
    pub severity: Severity,
    /// File.
    pub file_path: Option<String>,
    /// Line.
    pub line: Option<usize>,
    /// Description.
    pub description: String,
    /// How to fix it.
    pub suggestion: Option<String>,
}

/// What a review is asked to do; every field left out keeps the default.
pub struct ReviewParams {
    /// Root of the repository, where the service does not run in it.
    pub path: Option<String>,
    /// Whether to analyze structure.
    pub tree_sitter: Option<bool>,
    /// Whether to run a security scan.
    pub security_scan: Option<bool>,
    /// Issues the change is for.
    pub issue_ids: Option<Vec<String>>,
    /// Scanner to use.
    pub scan_tool: Option<String>,
    /// Whether to analyze deviation from the issues.
    pub deviation_analysis: Option<bool>,
    /// Output format.
    pub format: Option<String>,
}

/// The review service: the settings a review starts from.
pub struct ReviewService {
    /// The default settings.
    pub default_config: ReviewConfig,
}

/// Whether `c` holds the settings a review starts from: the given format,
/// structure analysis and security scan, nothing else set.
pub open spec fn review_defaults(c: ReviewConfig, format: Seq<char>, tree_sitter: bool, security_scan: bool) -> bool {
    &&& c.language is None
    &&& c.format@ == format
    &&& c.output is None
    &&& c.tree_sitter == tree_sitter
    &&& c.security_scan == security_scan
    &&& c.scan_tool is None
    &&& !c.block_on_critical
    &&& c.issue_ids.len() == 0
    &&& !c.full
    &&& !c.deviation_analysis
}

/// An optional boolean, or `d` where it is absent.
pub open spec fn bool_or(b: Option<bool>, d: bool) -> bool {
    match b {
        Some(x) => x,
        None => d,
    }
}

/// Whether `r` is the settings `c` with what `p` asks for put in.
pub open spec fn overridden(c: ReviewConfig, p: ReviewParams, r: ReviewConfig) -> bool {
    &&& opt_view(r.language) == opt_view(c.language)
    &&& r.format@ == (match p.format {
        Some(f) => f@,
        None => c.format@,
    })
    &&& opt_view(r.output) == opt_view(c.output)
    &&& r.tree_sitter == bool_or(p.tree_sitter, c.tree_sitter)
    &&& r.security_scan == bool_or(p.security_scan, c.security_scan)
    &&& opt_view(r.scan_tool) == (match p.scan_tool {
        Some(t) => Some(t@),
        None => opt_view(c.scan_tool),
    })
    &&& r.block_on_critical == c.block_on_critical
    &&& texts(r.issue_ids@) == (match p.issue_ids {
        Some(v) => texts(v@),
        None => texts(c.issue_ids@),
    })
    &&& r.full == c.full
    &&& r.deviation_analysis == bool_or(p.deviation_analysis, c.deviation_analysis)
}

fn copy_opt(s: &Option<String>) -> (r: Option<String>)
    ensures
        opt_view(r) == opt_view(*s),
{
    match s {
        Some(t) => Some(t.clone()),
        None => None,
    }
}

impl ReviewService {
    /// The service with the format, structure analysis and security scan its
    /// configuration gives, where it has a review section; else text output
    /// with neither.
    pub fn new(configured: Option<(String, bool, bool)>) -> (r: Self)
        ensures
            configured matches Some(c) ==> review_defaults(r.default_config, c.0@, c.1, c.2),
            configured is None ==> review_defaults(r.default_config, "text"@, false, false),
    {
        let mut c = Self::default_review_config();
        match configured {
            Some((format, tree_sitter, security_scan)) => {
                c.format = format;
                c.tree_sitter = tree_sitter;
                c.security_scan = security_scan;
            },
            None => {},
        }
        ReviewService { default_config: c }
    }

    /// Text output, nothing else asked for.
    fn default_review_config() -> (r: ReviewConfig)
        ensures
            review_defaults(r, "text"@, false, false),
    {
        ReviewConfig {
            language: None,
            format: String::from_str("text"),
            output: None,
            tree_sitter: false,
            security_scan: false,
            scan_tool: None,
            block_on_critical: false,
            issue_ids: Vec::new(),
            full: false,
            deviation_analysis: false,
        }
    }

    /// The settings of a review: the defaults with what `params` asks for put in.
    pub fn review_config_for(&self, params: &ReviewParams) -> (r: ReviewConfig)
        ensures
            overridden(self.default_config, *params, r),
    {
        let c = &self.default_config;
        ReviewConfig {
            language: copy_opt(&c.language),
            format: match &params.format {
                Some(f) => f.clone(),
                None => c.format.clone(),
            },
            output: copy_opt(&c.output),
            tree_sitter: match params.tree_sitter {
                Some(b) => b,
                None => c.tree_sitter,
            },
            security_scan: match params.security_scan {
                Some(b) => b,
                None => c.security_scan,
            },
            scan_tool: match &params.scan_tool {
                Some(t) => Some(t.clone()),
                None => copy_opt(&c.scan_tool),
            },
            block_on_critical: c.block_on_critical,
            issue_ids: match &params.issue_ids {
                Some(v) => crate::text::copy_texts(v),
                None => crate::text::copy_texts(&c.issue_ids),
            },
            full: c.full,
            deviation_analysis: match params.deviation_analysis {
                Some(b) => b,
                None => c.deviation_analysis,
            },
        }
    }
}

/// The severity the service reports for a review severity: critical, high and
/// error as errors, medium, low and warning as warnings, information as such.
pub open spec fn service_severity(s: ReviewSeverity) -> Severity {
    match s {
        ReviewSeverity::Critical | ReviewSeverity::High | ReviewSeverity::Error => Severity::Error,
        ReviewSeverity::Medium | ReviewSeverity::Low | ReviewSeverity::Warning => Severity::Warning,
        ReviewSeverity::Info => Severity::Info,
    }
}

/// Whether `g` is how the service reports review finding `f`.
pub open spec fn reported(f: ReviewFinding, g: Finding) -> bool {
    &&& g.title@ == f.title@
    &&& g.severity == service_severity(f.severity)
    &&& opt_view(g.file_path) == opt_view(f.file_path)
    &&& g.line == f.line
    &&& g.description@ == f.message@
    &&& opt_view(g.suggestion) == opt_view(f.recommendation)
}

/// How the service reports a review finding (see `reported`).
pub fn convert_finding(f: &ReviewFinding) -> (r: Finding)
    ensures
        reported(*f, r),
{
    let severity = match f.severity {
        ReviewSeverity::Critical | ReviewSeverity::High | ReviewSeverity::Error => Severity::Error,
        ReviewSeverity::Medium | ReviewSeverity::Low | ReviewSeverity::Warning => Severity::Warning,
        ReviewSeverity::Info => Severity::Info,
    };
    Finding {
        title: f.title.clone(),
        severity,
        file_path: copy_opt(&f.file_path),
        line: f.line,
        description: f.message.clone(),
        suggestion: copy_opt(&f.recommendation),
    }
}

/// `s` without `suffix` at its end as often as it is there, as
/// `str::trim_end_matches` does.
pub open spec fn trim_suffix_all(s: Seq<char>, suffix: Seq<char>) -> Seq<char>
    decreases s.len(),
{
    if suffix.len() > 0 && has_suffix(s, suffix) {
        trim_suffix_all(s.subrange(0, s.len() - suffix.len()), suffix)
    } else {
        s
    }
}

/// The detail keys of the first `k` that name a language's functions.
pub open spec fn function_keys(keys: Seq<Seq<char>>, k: int) -> Seq<Seq<char>>
    decreases k,
{
    if k <= 0 {
        Seq::empty()
    } else if has_suffix(keys[k - 1], "_functions"@) {
        function_keys(keys, k - 1).push(keys[k - 1])
    } else {
        function_keys(keys, k - 1)
    }
}

/// Whether the details of a structural analysis tell of several languages:
/// some key speaks of functions or classes, and more than one names a
/// language's functions.
pub open spec fn several_languages(keys: Seq<Seq<char>>) -> bool {
    (exists|i: int|
        0 <= i < keys.len() && (has_infix(#[trigger] keys[i], "_functions"@) || has_infix(keys[i], "_classes"@)))
        && function_keys(keys, keys.len() as int).len() > 1
}

/// The languages the details name, in the order of their keys.
pub open spec fn languages_of(keys: Seq<Seq<char>>) -> Seq<Seq<char>> {
    function_keys(keys, keys.len() as int).map_values(|k: Seq<char>| trim_suffix_all(k, "_functions"@))
}

fn trim_functions_suffix(s: &str) -> (r: String)
    ensures
        r@ == trim_suffix_all(s@, "_functions"@),
{
    let cs = crate::text::chars_of(s);
    let mut end: usize = cs.len();
    proof {
        reveal_strlit("_functions");
    }
    let ghost target = trim_suffix_all(s@, "_functions"@);
    assert(cs@.subrange(0, end as int) =~= s@);
    while end >= 10 && crate::text::str_ends_with(crate::text::string_between(&cs, 0, end).as_str(), "_functions")
        invariant
            end <= cs.len(),
            cs@ == s@,
            target == trim_suffix_all(cs@.subrange(0, end as int), "_functions"@),
            "_functions"@.len() == 10,
        decreases end,
    {
        assert(cs@.subrange(0, end as int).subrange(0, end - 10) =~= cs@.subrange(0, end - 10));
        end = end - 10;
    }
    let r = crate::text::string_between(&cs, 0, end);
    proof {
        let t = cs@.subrange(0, end as int);
        if end >= 10 {
            assert(!has_suffix(t, "_functions"@));
        } else {
            assert(!has_suffix(t, "_functions"@)) by {
                assert(t.len() < 10);
            }
        }
    }
    r
}

/// Whether several languages were analyzed and which, judged by the detail
/// keys (see `several_languages` and `languages_of`).
pub fn analysis_languages(keys: &Vec<String>) -> (r: Option<Vec<String>>)
    ensures
        several_languages(texts(keys@)) ==> (r matches Some(v) && texts(v@) == languages_of(texts(keys@))),
        !several_languages(texts(keys@)) ==> r is None,
{
    let ghost ks = texts(keys@);
    let mut mentions = false;
    let mut names: Vec<String> = Vec::new();
    let mut i: usize = 0;
    while i < keys.len()
        invariant
            i <= keys.len(),
            ks == texts(keys@),
            mentions == (exists|j: int|
                0 <= j < i && (has_infix(#[trigger] ks[j], "_functions"@) || has_infix(ks[j], "_classes"@))),
            texts(names@) == function_keys(ks, i as int).map_values(|k: Seq<char>| trim_suffix_all(k, "_functions"@)),
            names.len() == function_keys(ks, i as int).len(),
        decreases keys.len() - i,
    {
        let k = keys[i].as_str();
        assert(ks[i as int] == k@);
        if str_contains(k, "_functions") || str_contains(k, "_classes") {
            mentions = true;
        }
        let ghost before = texts(names@);
        if str_ends_with(k, "_functions") {
            names.push(trim_functions_suffix(k));
            assert(texts(names@) =~= before.push(trim_suffix_all(k@, "_functions"@)));
        }
        assert(function_keys(ks, i + 1).map_values(|k: Seq<char>| trim_suffix_all(k, "_functions"@)) =~= (if has_suffix(
            ks[i as int],
            "_functions"@,
        ) {
            function_keys(ks, i as int).map_values(|k: Seq<char>| trim_suffix_all(k, "_functions"@)).push(
                trim_suffix_all(ks[i as int], "_functions"@),
            )
        } else {
            function_keys(ks, i as int).map_values(|k: Seq<char>| trim_suffix_all(k, "_functions"@))
        }));
        i = i + 1;
    }
    if mentions && names.len() > 1 {
        Some(names)
    } else {
        None
    }
}

/// The message of a review, saying so where several languages were analyzed.
pub open spec fn enhanced_message_of(message: Seq<char>, languages: Option<Seq<char>>) -> Seq<char> {
    match languages {
        Some(l) => message + " (多语言项目："@ + l + ")"@,
        None => message,
    }
}

/// The message of a review (see `enhanced_message_of`); `languages` is the
/// joined list where several languages were analyzed.
pub fn enhanced_message(message: &str, languages: Option<&str>) -> (r: String)
    ensures
        r@ == enhanced_message_of(
            message@,
            match languages {
                Some(l) => Some(l@),
                None => None,
            },
        ),
{
    let mut m = String::from_str(message);
    match languages {
        Some(l) => {
            m.append(" (多语言项目：");
            m.append(l);
            m.append(")");
        },
        None => {},
    }
    m
}

} // verus!
