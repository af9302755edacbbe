use crate::scan::opt_view;
use crate::text::{decimal_text, format_decimal, texts};
use vstd::prelude::*;

verus! {

/// Settings of a commit.
pub struct CommitConfig {
    /// Commit message, if given.
    pub message: Option<String>,
    /// Issues the commit is for.
    pub issue_ids: Vec<String>,
    /// Project space, if given.
    pub space_id: Option<u64>,
    /// Whether to add all files.
    pub add_all: bool,
    /// Whether to review the changes first.
    pub review: bool,
    /// Whether to analyze structure.
    pub tree_sitter: bool,
    /// Whether only to try.
    pub dry_run: bool,
}

/// What a commit is asked to do; every field left out keeps the default.
pub struct CommitParams {
    /// Commit message.
    pub message: Option<String>,
    /// Issues the commit is for.
    pub issue_ids: Option<Vec<String>>,
    /// Whether to add all files.
    pub add_all: Option<bool>,
    /// Whether to review the changes first.
    pub review: Option<bool>,
    /// Whether to analyze structure.
    pub tree_sitter: Option<bool>,
    /// Whether only to try.
    pub dry_run: Option<bool>,
}

/// The commit service: the settings a commit starts from.
pub struct CommitService {
    /// The default settings.
    pub default_config: CommitConfig,
}

/// What the review before a commit found, as the service reports it.
pub struct ReviewResults {
    /// Score out of 100.
    pub score: Option<u8>,
    /// Main findings.
    pub findings: Vec<String>,
    /// Recommendations.
    pub recommendations: Vec<String>,
}

/// Whether `c` holds the settings a commit starts from: the given choices to
/// add all files, review and analyze structure, nothing else set.
pub open spec fn commit_defaults(c: CommitConfig, add_all: bool, review: bool, tree_sitter: bool) -> bool {
    &&& c.message is None
    &&& c.issue_ids.len() == 0
    &&& c.space_id is None
    &&& c.add_all == add_all
    &&& c.review == review
    &&& c.tree_sitter == tree_sitter
    &&& !c.dry_run
}

/// An optional boolean, or `d` where it is absent.
pub open spec fn flag_or(b: Option<bool>, d: bool) -> bool {
    match b {
        Some(x) => x,
        None => d,
    }
}

impl CommitService {
    /// The service with the choices its configuration gives (add all files,
    /// review, analyze structure), where it has a commit section; else none of them.
    pub fn new(configured: Option<(bool, bool, bool)>) -> (r: Self)
        ensures
            configured matches Some(c) ==> commit_defaults(r.default_config, c.0, c.1, c.2),
            configured is None ==> commit_defaults(r.default_config, false, false, false),
    {
        let mut c = Self::default_commit_config();
        match configured {
            Some((add_all, review, tree_sitter)) => {
                c.add_all = add_all;
                c.review = review;
                c.tree_sitter = tree_sitter;
            },
            None => {},
        }
        CommitService { default_config: c }
    }

    /// No message, no issues, nothing asked for.
    fn default_commit_config() -> (r: CommitConfig)
        ensures
            commit_defaults(r, false, false, false),
    {
        CommitConfig {
            message: None,
            issue_ids: Vec::new(),
            space_id: None,
            add_all: false,
            review: false,
            tree_sitter: false,
            dry_run: false,
        }
    }

    /// The settings of a commit: the defaults with what `params` asks for put in.
    pub fn commit_config_for(&self, params: &CommitParams) -> (r: CommitConfig)
        ensures
            opt_view(r.message) == (match params.message {
                Some(m) => Some(m@),
                None => opt_view(self.default_config.message),
            }),
            texts(r.issue_ids@) == (match params.issue_ids {
                Some(v) => texts(v@),
                None => texts(self.default_config.issue_ids@),
            }),
            r.space_id == self.default_config.space_id,
            r.add_all == flag_or(params.add_all, self.default_config.add_all),
            r.review == flag_or(params.review, self.default_config.review),
            r.tree_sitter == flag_or(params.tree_sitter, self.default_config.tree_sitter),
            r.dry_run == flag_or(params.dry_run, self.default_config.dry_run),
    {
        let c = &self.default_config;
        CommitConfig {
            message: match &params.message {
                Some(m) => Some(m.clone()),
                None => match &c.message {
                    Some(m) => Some(m.clone()),
                    None => None,
                },
            },
            issue_ids: match &params.issue_ids {
                Some(v) => crate::text::copy_texts(v),
                None => crate::text::copy_texts(&c.issue_ids),
            },
            space_id: c.space_id,
            add_all: match params.add_all {
                Some(b) => b,
                None => c.add_all,
            },
            review: match params.review {
                Some(b) => b,
                None => c.review,
            },
            tree_sitter: match params.tree_sitter {
                Some(b) => b,
                None => c.tree_sitter,
            },
            dry_run: match params.dry_run {
                Some(b) => b,
                None => c.dry_run,
            },
        }
    }
}

/// The score the service gives a pre-commit review: 30 with critical issues,
/// 60 with other issues, else 80.
pub open spec fn commit_review_score(critical_issues: nat, issues_found: nat) -> u8 {
    if critical_issues > 0 {
        30
    } else if issues_found > 0 {
        60
    } else {
        80
    }
}

/// The findings named for `n` issues: "Issue 1" to "Issue n".
pub open spec fn issue_labels(n: nat) -> Seq<Seq<char>>
    decreases n,
{
    if n == 0 {
        Seq::empty()
    } else {
        issue_labels((n - 1) as nat).push("Issue "@ + decimal_text(n))
    }
}

/// How the service reports the review before a commit: its score, a finding
/// per issue, and its report as the one recommendation where there is one.
pub fn review_results_of(critical_issues: usize, issues_found: usize, report: Option<String>) -> (r: ReviewResults)
    ensures
        r.score == Some(commit_review_score(critical_issues as nat, issues_found as nat)),
        texts(r.findings@) == issue_labels(issues_found as nat),
        texts(r.recommendations@) == (match report {
            Some(t) => seq![t@],
            None => Seq::<Seq<char>>::empty(),
        }),
{
    let score: u8 = if critical_issues > 0 {
        30
    } else if issues_found > 0 {
        60
    } else {
        80
    };
    let mut findings: Vec<String> = Vec::new();
    let mut i: usize = 0;
    assert(texts(findings@) =~= issue_labels(0));
    while i < issues_found
        invariant
            i <= issues_found,
            texts(findings@) == issue_labels(i as nat),
        decreases issues_found - i,
    {
        let mut label = String::from_str("Issue ");
        label.append(format_decimal((i + 1) as u64).as_str());
        let ghost before = texts(findings@);
        findings.push(label);
        assert(texts(findings@) =~= before.push("Issue "@ + decimal_text((i + 1) as nat)));
        i = i + 1;
    }
    let recommendations: Vec<String> = match report {
        Some(t) => {
            let v = vec![t];
            assert(texts(v@) =~= seq![v@[0]@]);
            v
        },
        None => {
            let v: Vec<String> = Vec::new();
            assert(texts(v@) =~= Seq::<Seq<char>>::empty());
            v
        },
    };
    ReviewResults { score: Some(score), findings, recommendations }
}

} // verus!
