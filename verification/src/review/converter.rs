use crate::review::types::{severity_named, Finding, Severity};
use crate::scan::Finding as ScanFinding;
use vstd::prelude::*;

verus! {

/// A review finding from a scan finding: the severity read from its name
/// (anything unknown as `Info`), location and remediation carried over.
pub open spec fn converted(f: ScanFinding, g: Finding) -> bool {
    &&& g.title == f.title
    &&& g.severity == severity_named(f.severity@)
    &&& g.file_path == Some(f.file_path)
    &&& g.line == Some(f.line)
    &&& g.column == Some(f.column)
    &&& g.code_snippet == f.code_snippet
    &&& g.message == f.message
    &&& g.rule_id == f.rule_id
    &&& g.recommendation == f.remediation
}

/// The review finding a scan finding stands for.
pub fn convert_scan_finding(f: ScanFinding) -> (r: Finding)
    ensures
        converted(f, r),
{
    let severity = Severity::parse_name(f.severity.as_str());
    Finding {
        title: f.title,
        severity,
        file_path: Some(f.file_path),
        line: Some(f.line),
        column: Some(f.column),
        code_snippet: f.code_snippet,
        message: f.message,
        rule_id: f.rule_id,
        recommendation: f.remediation,
    }
}

/// The review findings the scan findings stand for, in order.
pub fn convert_scan_findings(findings: Vec<ScanFinding>) -> (r: Vec<Finding>)
    ensures
        r.len() == findings.len(),
        forall|i: int| 0 <= i < findings.len() ==> converted(findings@[i], #[trigger] r@[i]),
{
    let mut out: Vec<Finding> = Vec::new();
    let mut rest = findings;
    let ghost all = rest@;
    let mut i: usize = 0;
    let n = rest.len();
    let mut reversed: Vec<ScanFinding> = Vec::new();
    while rest.len() > 0
        invariant
            reversed.len() + rest.len() == n,
            n == all.len(),
            rest@ == all.take(rest.len() as int),
            forall|j: int| 0 <= j < reversed.len() ==> #[trigger] reversed@[j] == all[n - 1 - j],
        decreases rest.len(),
    {
        let f = rest.pop().unwrap();
        reversed.push(f);
        assert(rest@ =~= all.take(rest.len() as int));
    }
    while reversed.len() > 0
        invariant
            out.len() + reversed.len() == n,
            n == all.len(),
            forall|j: int| 0 <= j < reversed.len() ==> #[trigger] reversed@[j] == all[n - 1 - j],
            forall|j: int| 0 <= j < out.len() ==> converted(all[j], #[trigger] out@[j]),
        decreases reversed.len(),
    {
        let f = reversed.pop().unwrap();
        let g = convert_scan_finding(f);
        out.push(g);
    }
    out
}

} // verus!
