use crate::mcp::registry::RegistryError;
use crate::text::texts;
use vstd::prelude::*;

verus! {

/// What a deviation analysis is asked for.
pub struct DeviationParams {
    /// Issues to compare the changes with.
    pub issue_ids: Vec<String>,
    /// The changes, if given.
    pub diff: Option<String>,
}

/// The outcome of a deviation analysis.
pub struct DeviationResult {
    /// How well the changes match the issues, out of 100.
    pub match_score: i32,
    /// Why they deviate.
    pub deviation_reasons: Vec<String>,
    /// Issues matched.
    pub matched_issues: Vec<String>,
    /// Issues not matched.
    pub unmatched_issues: Vec<String>,
    /// Notes on the analysis.
    pub note: String,
    /// Whether the changes need attention.
    pub needs_attention: bool,
}

/// The deviation service.
pub struct DeviationService;

impl DeviationService {
    /// The service.
    pub fn new() -> (r: Self)
        ensures
            r == DeviationService,
    {
        DeviationService
    }

    /// Deviation analysis without an issue tracker: refused without issues;
    /// otherwise a neutral score of 50 that names all issues as matched and says
    /// that no real analysis could be made.
    pub fn analyze_deviation(&self, params: &DeviationParams) -> (r: Result<DeviationResult, RegistryError>)
        ensures
            params.issue_ids.len() == 0 ==> (r matches Err(RegistryError::InvalidParameters(m)) && m@
                == "缺少 issue_ids 参数"@),
            params.issue_ids.len() > 0 ==> (r matches Ok(d) && {
                &&& d.match_score == 50
                &&& texts(d.deviation_reasons@) == seq!["DevOps 功能未启用，无法进行实际分析"@]
                &&& texts(d.matched_issues@) == texts(params.issue_ids@)
                &&& d.unmatched_issues.len() == 0
                &&& d.note@ == "DevOps 功能未启用，这是一个模拟结果"@
                &&& !d.needs_attention
            }),
    {
        if params.issue_ids.len() == 0 {
            return Err(RegistryError::InvalidParameters(String::from_str("缺少 issue_ids 参数")));
        }
        let reasons = vec![String::from_str("DevOps 功能未启用，无法进行实际分析")];
        assert(texts(reasons@) =~= seq!["DevOps 功能未启用，无法进行实际分析"@]);
        Ok(
            DeviationResult {
                match_score: 50,
                deviation_reasons: reasons,
                matched_issues: crate::text::copy_texts(&params.issue_ids),
                unmatched_issues: Vec::new(),
                note: String::from_str("DevOps 功能未启用，这是一个模拟结果"),
                needs_attention: false,
            },
        )
    }
}

} // verus!
