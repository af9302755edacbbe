use crate::text::{ascii_lower_text, split_text, str_to_ascii_lower, same_text, split_str, texts, trim_str, trim_text};
use crate::mcp::utils::ConfigMap;
use vstd::prelude::*;

verus! {

/// Outcome of a review.
pub struct ReviewResult {
    /// Whether the review succeeded.
    pub success: bool,
    /// Message.
    pub message: String,
    /// Short summary.
    pub summary: String,
    /// Further details, by name.
    pub details: ConfigMap<String>,
    /// Problems found.
    pub findings: Vec<Finding>,
    /// Score out of 100, if given.
    pub score: Option<u8>,
    /// Recommendations.
    pub recommendations: Vec<String>,
}

/// A problem a review found.
pub struct Finding {
    /// Short title.
    pub title: String,
    /// Severity.
    pub severity: Severity,
    /// File it is in.
    pub file_path: Option<String>,
    /// Line.
    pub line: Option<usize>,
    /// Column.
    pub column: Option<usize>,
    /// Code in question.
    pub code_snippet: Option<String>,
    /// Message.
    pub message: String,
    /// Rule that found it.
    pub rule_id: Option<String>,
    /// How to fix it.
    pub recommendation: Option<String>,
}

/// Severity of a review finding.
#[derive(Debug, Clone, Copy, PartialEq, Eq, Structural)]
pub enum Severity {
    /// Critical.
    Critical,
    /// High.
    High,
    /// Medium.
    Medium,
    /// Low.
    Low,
    /// Information.
    Info,
    /// Error.
    Error,
    /// Warning.
    Warning,
}

/// The severity a name stands for, ignoring case; anything else is `Info`.
pub open spec fn severity_named(s: Seq<char>) -> Severity {
    let l = ascii_lower_text(s);
    if l == "critical"@ {
        Severity::Critical
    } else if l == "high"@ {
        Severity::High
    } else if l == "medium"@ {
        Severity::Medium
    } else if l == "low"@ {
        Severity::Low
    } else if l == "info"@ {
        Severity::Info
    } else if l == "error"@ {
        Severity::Error
    } else if l == "warning"@ {
        Severity::Warning
    } else {
        Severity::Info
    }
}

impl Severity {
    /// The severity `s` names, ignoring case; anything else is `Info`.
    pub fn parse_name(s: &str) -> (r: Severity)
        ensures
            r == severity_named(s@),
    {
        let l = str_to_ascii_lower(s);
        let t = l.as_str();
        if same_text(t, "critical") {
            Severity::Critical
        } else if same_text(t, "high") {
            Severity::High
        } else if same_text(t, "medium") {
            Severity::Medium
        } else if same_text(t, "low") {
            Severity::Low
        } else if same_text(t, "info") {
            Severity::Info
        } else if same_text(t, "error") {
            Severity::Error
        } else if same_text(t, "warning") {
            Severity::Warning
        } else {
            Severity::Info
        }
    }
}

impl std::str::FromStr for Severity {
    type Err = ();

    fn from_str(s: &str) -> (r: Result<Self, Self::Err>)
        ensures
            r == Ok::<Severity, ()>(severity_named(s@)),
    {
        Ok(Severity::parse_name(s))
    }
}

/// Settings of a review.
pub struct ReviewConfig {
    /// Language of the output.
    pub language: Option<String>,
    /// Output format.
    pub format: String,
    /// File to write the output to.
    pub output: Option<String>,
    /// Whether to analyze structure with Tree-sitter.
    pub tree_sitter: bool,
    /// Whether to run a security scan.
    pub security_scan: bool,
    /// Scanner to use.
    pub scan_tool: Option<String>,
    /// Whether critical problems block.
    pub block_on_critical: bool,
    /// Issues the change is for.
    pub issue_ids: Vec<String>,
    /// Whether to analyze in full depth.
    pub full: bool,
    /// Whether to analyze deviation from the issues.
    pub deviation_analysis: bool,
}

/// The issue identifiers of a comma-separated list, each trimmed.
pub open spec fn issue_ids_of(ids: Option<Seq<char>>) -> Seq<Seq<char>> {
    match ids {
        Some(s) => split_text(s, ',').map_values(|p: Seq<char>| trim_text(p)),
        None => Seq::empty(),
    }
}

impl ReviewConfig {
    /// Settings from command-line arguments: `issue_id` is a comma-separated list
    /// of issue identifiers; naming a scanner turns the security scan on.
    pub fn from_args(
        language: Option<String>,
        format: String,
        output: Option<String>,
        tree_sitter: bool,
        security_scan: bool,
        scan_tool: Option<String>,
        block_on_critical: bool,
        issue_id: Option<String>,
        full: bool,
        deviation_analysis: bool,
    ) -> (r: Self)
        ensures
            r.language == language,
            r.format == format,
            r.output == output,
            r.tree_sitter == tree_sitter,
            r.security_scan == (security_scan || scan_tool is Some),
            r.scan_tool == scan_tool,
            r.block_on_critical == block_on_critical,
            texts(r.issue_ids@) == issue_ids_of(
                match issue_id {
                    Some(s) => Some(s@),
                    None => None,
                },
            ),
            r.full == full,
            r.deviation_analysis == deviation_analysis,
    {
        let issue_ids = match &issue_id {
            Some(ids) => {
                let parts = split_str(ids.as_str(), ',');
                let mut out: Vec<String> = Vec::new();
                let mut i: usize = 0;
                while i < parts.len()
                    invariant
                        i <= parts.len(),
                        out.len() == i,
                        forall|j: int| 0 <= j < i ==> #[trigger] out@[j]@ == trim_text(parts@[j]@),
                    decreases parts.len() - i,
                {
                    out.push(trim_str(parts[i].as_str()));
                    i = i + 1;
                }
                assert(texts(out@) =~= split_text(ids@, ',').map_values(|p: Seq<char>| trim_text(p)));
                out
            },
            None => Vec::new(),
        };
        let security_scan = security_scan || scan_tool.is_some();
        ReviewConfig {
            language,
            format,
            output,
            tree_sitter,
            security_scan,
            scan_tool,
            block_on_critical,
            issue_ids,
            full,
            deviation_analysis,
        }
    }

    /// Whether issue details are needed: when issues are named or deviation is analyzed.
    pub fn needs_issue_context(&self) -> (r: bool)
        ensures
            r == (self.issue_ids.len() > 0 || self.deviation_analysis),
    {
        self.issue_ids.len() > 0 || self.deviation_analysis
    }

    /// Whether deviation is analyzed.
    pub fn deviation_analysis(&self) -> (r: bool)
        ensures
            r == self.deviation_analysis,
    {
        self.deviation_analysis
    }
}

/// A cached review.
pub struct ReviewCache {
    /// When it was stored, in seconds since the Unix epoch.
    pub timestamp: u64,
    /// Hash of the diff reviewed.
    pub diff_hash: String,
    /// The review.
    pub review_result: String,
    /// Its language.
    pub language: Option<String>,
}

/// Seconds since the Unix epoch, from the system clock (0 if it is set before the epoch).
#[verifier::external_body]
fn clock_seconds() -> u64 {
    std::time::SystemTime::now().duration_since(std::time::UNIX_EPOCH).unwrap_or_default().as_secs()
}

/// Whether an entry stored at `timestamp` is older than `max_age` at time `now`
/// (a clock behind the entry counts as no age).
pub open spec fn cache_expired(timestamp: u64, max_age: u64, now: u64) -> bool {
    (if now >= timestamp {
        now - timestamp
    } else {
        0
    }) > max_age
}

impl ReviewCache {
    /// A cache entry stored at time `now` (seconds since the Unix epoch).
    pub fn new_at(diff_hash: &str, review_result: String, language: Option<String>, now: u64) -> (r: Self)
        ensures
            r.timestamp == now,
            r.diff_hash@ == diff_hash@,
            r.review_result == review_result,
            r.language == language,
    {
        ReviewCache { timestamp: now, diff_hash: String::from_str(diff_hash), review_result, language }
    }

    /// A cache entry stored now.
    pub fn new(diff_hash: &str, review_result: String, language: Option<String>) -> (r: Self)
        ensures
            r.diff_hash@ == diff_hash@,
            r.review_result == review_result,
            r.language == language,
    {
        Self::new_at(diff_hash, review_result, language, clock_seconds())
    }

    /// Whether the entry is older than `max_age_seconds` at time `now`.
    pub fn is_expired_at(&self, max_age_seconds: u64, now: u64) -> (r: bool)
        ensures
            r == cache_expired(self.timestamp, max_age_seconds, now),
    {
        now.saturating_sub(self.timestamp) > max_age_seconds
    }

    /// Whether the entry is older than `max_age_seconds` now.
    pub fn is_expired(&self, max_age_seconds: u64) -> (r: bool)
        ensures
            exists|now: u64| r == #[trigger] cache_expired(self.timestamp, max_age_seconds, now),
    {
        self.is_expired_at(max_age_seconds, clock_seconds())
    }
}

} // verus!
