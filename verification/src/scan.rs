use crate::text::{
    chars_of, decimal_text, format_decimal, has_infix, lines_of, lines_text, str_contains, string_from, texts,
    trim_str, trim_text, byte_boundary, cut_str_to_bytes, cut_to_bytes, text_bytes, truncates_cleanly,
};
use vstd::prelude::*;

verus! {

/// What is known of the rules a scan used.
pub struct RulesInfo {
    /// Directory of the rules.
    pub dir: String,
    /// Where the rules came from.
    pub sources: Vec<String>,
    /// How many rules there are.
    pub total_rules: usize,
    /// When they were last updated, if known.
    pub updated_at: Option<String>,
}

/// A security problem a scan found.
pub struct Finding {
    /// Short title.
    pub title: String,
    /// File it is in.
    pub file_path: String,
    /// Line.
    pub line: usize,
    /// Column.
    pub column: usize,
    /// Severity, as the scanner named it.
    pub severity: String,
    /// Rule that found it.
    pub rule_id: Option<String>,
    /// Code in question.
    pub code_snippet: Option<String>,
    /// Message.
    pub message: String,
    /// How to fix it.
    pub remediation: Option<String>,
}

/// Severity of a scan finding.
#[derive(Debug, Clone, Copy, PartialEq, Eq, Structural)]
pub enum Severity {
    /// Error.
    Error,
    /// Warning.
    Warning,
    /// Information.
    Info,
}

/// One result of an OpenGrep run, as far as its JSON gives each field as the
/// right kind of value (`extra.message`, `path`, `start.line`, `start.col`,
/// `check_id`, `severity`, `lines`, `extra.fix`).
pub struct OpengrepItem {
    /// `extra.message`.
    pub message: Option<String>,
    /// `path`.
    pub path: Option<String>,
    /// `start.line`.
    pub line: Option<u64>,
    /// `start.col`.
    pub col: Option<u64>,
    /// `check_id`.
    pub check_id: Option<String>,
    /// `severity`.
    pub severity: Option<String>,
    /// `lines`.
    pub lines: Option<String>,
    /// `extra.fix`.
    pub fix: Option<String>,
}

/// The view of an optional string.
pub open spec fn opt_view(s: Option<String>) -> Option<Seq<char>> {
    match s {
        Some(t) => Some(t@),
        None => None,
    }
}

/// `s`, or `d` where it is absent.
pub open spec fn text_or(s: Option<String>, d: Seq<char>) -> Seq<char> {
    match s {
        Some(t) => t@,
        None => d,
    }
}

/// Whether `f` is the finding an OpenGrep result stands for: its message as
/// title and message ("Unknown issue" without one), its path (empty without
/// one), line and column (0 without them), its rule, its severity ("WARNING"
/// without one), its lines as the snippet and its fix as remediation.
pub open spec fn finding_of_item(item: OpengrepItem, f: Finding) -> bool {
    &&& f.title@ == text_or(item.message, "Unknown issue"@)
    &&& f.message@ == text_or(item.message, "Unknown issue"@)
    &&& f.file_path@ == text_or(item.path, ""@)
    &&& f.line == (match item.line {
        Some(n) => n as usize,
        None => 0usize,
    })
    &&& f.column == (match item.col {
        Some(n) => n as usize,
        None => 0usize,
    })
    &&& opt_view(f.rule_id) == opt_view(item.check_id)
    &&& f.severity@ == text_or(item.severity, "WARNING"@)
    &&& opt_view(f.code_snippet) == opt_view(item.lines)
    &&& opt_view(f.remediation) == opt_view(item.fix)
}

/// A finding keeps what the scanner reported: the severity it gives (only a
/// result without one is a warning), its message, its file and its rule.
pub proof fn lemma_finding_keeps_report(item: OpengrepItem, f: Finding)
    requires
        finding_of_item(item, f),
    ensures
        item.severity matches Some(s) ==> f.severity@ == s@,
        item.severity is None ==> f.severity@ == "WARNING"@,
        item.message matches Some(m) ==> f.message@ == m@ && f.title@ == m@,
        item.path matches Some(p) ==> f.file_path@ == p@,
        item.check_id matches Some(c) ==> f.rule_id matches Some(x) && x@ == c@,
        item.check_id is None ==> f.rule_id is None,
{
}

fn copy_opt(s: &Option<String>) -> (r: Option<String>)
    ensures
        opt_view(r) == opt_view(*s),
{
    match s {
        Some(t) => Some(String::from_str(t.as_str())),
        None => None,
    }
}

fn text_or_default(s: &Option<String>, d: &str) -> (r: String)
    ensures
        r@ == text_or(*s, d@),
{
    match s {
        Some(t) => String::from_str(t.as_str()),
        None => String::from_str(d),
    }
}

/// The finding an OpenGrep result stands for (see `finding_of_item`).
pub fn create_finding_from_result(item: &OpengrepItem) -> (r: Finding)
    ensures
        finding_of_item(*item, r),
{
    let title = text_or_default(&item.message, "Unknown issue");
    let message = text_or_default(&item.message, "Unknown issue");
    Finding {
        title,
        file_path: text_or_default(&item.path, ""),
        line: match item.line {
            Some(n) => n as usize,
            None => 0,
        },
        column: match item.col {
            Some(n) => n as usize,
            None => 0,
        },
        severity: text_or_default(&item.severity, "WARNING"),
        rule_id: copy_opt(&item.check_id),
        code_snippet: copy_opt(&item.lines),
        message,
        remediation: copy_opt(&item.fix),
    }
}

/// The findings the OpenGrep results stand for, in order.
pub fn findings_from_results(items: &Vec<OpengrepItem>) -> (r: Vec<Finding>)
    ensures
        r.len() == items.len(),
        forall|i: int| 0 <= i < items.len() ==> finding_of_item(items@[i], #[trigger] r@[i]),
{
    let mut out: Vec<Finding> = Vec::new();
    let mut i: usize = 0;
    while i < items.len()
        invariant
            i <= items.len(),
            out.len() == i,
            forall|k: int| 0 <= k < i ==> finding_of_item(items@[k], #[trigger] out@[k]),
        decreases items.len() - i,
    {
        out.push(create_finding_from_result(&items[i]));
        i = i + 1;
    }
    out
}

/// Position of the first `c` in `s`, or -1 when there is none.
pub open spec fn first_index_of(s: Seq<char>, c: char) -> int
    decreases s.len(),
{
    if s.len() == 0 {
        -1
    } else if s[0] == c {
        0
    } else if first_index_of(s.drop_first(), c) < 0 {
        -1
    } else {
        1 + first_index_of(s.drop_first(), c)
    }
}

/// The JSON in the output of OpenGrep: from its first `{` on; none where the
/// output is blank or has no `{`.
pub open spec fn json_part_of(output: Seq<char>) -> Option<Seq<char>> {
    if trim_text(output).len() == 0 || first_index_of(output, '{') < 0 {
        None
    } else {
        Some(output.skip(first_index_of(output, '{')))
    }
}

proof fn lemma_first_index(s: Seq<char>, c: char, i: int)
    requires
        0 <= i <= s.len(),
        forall|j: int| 0 <= j < i ==> s[j] != c,
    ensures
        i < s.len() && s[i] == c ==> first_index_of(s, c) == i,
        i == s.len() ==> first_index_of(s, c) == -1,
    decreases i,
{
    if i > 0 {
        let t = s.drop_first();
        assert forall|j: int| 0 <= j < i - 1 implies t[j] != c by {
            assert(t[j] == s[j + 1]);
        }
        lemma_first_index(t, c, i - 1);
        if i < s.len() {
            assert(t[i - 1] == s[i]);
        }
    }
}

/// The JSON in the output of OpenGrep (see `json_part_of`).
pub fn opengrep_json_part(output: &str) -> (r: Option<String>)
    ensures
        opt_view(r) == json_part_of(output@),
{
    if trim_str(output).unicode_len() == 0 {
        return None;
    }
    let cs = chars_of(output);
    let mut i: usize = 0;
    while i < cs.len() && cs[i] != '{'
        invariant
            i <= cs.len(),
            cs@ == output@,
            forall|j: int| 0 <= j < i ==> cs@[j] != '{',
        decreases cs.len() - i,
    {
        i = i + 1;
    }
    proof {
        lemma_first_index(cs@, '{', i as int);
    }
    if i == cs.len() {
        None
    } else {
        Some(string_from(&cs, i))
    }
}

/// What the metadata file of a rules directory holds, as far as JSON gives
/// each field as the right kind of value: `sources` where it is an array,
/// each entry the string it is (or `None` for any other value); `total_rules`
/// where it is an unsigned integer; `updated_at` where it is a string.
pub struct RawRulesMeta {
    /// `sources`, entry by entry.
    pub sources: Option<Vec<Option<String>>>,
    /// `total_rules`.
    pub total_rules: Option<u64>,
    /// `updated_at`.
    pub updated_at: Option<String>,
}

/// The plain values of a metadata file's fields (see `RawRulesMeta`).
pub open spec fn raw_meta_view(m: RawRulesMeta) -> (Option<Seq<Option<Seq<char>>>>, Option<u64>, Option<Seq<char>>) {
    (
        match m.sources {
            Some(v) => Some(v@.map_values(|e: Option<String>| opt_view(e))),
            None => None,
        },
        m.total_rules,
        opt_view(m.updated_at),
    )
}

/// The fields of the metadata file with content `content`, where the content
/// parses as JSON (`serde_json::from_str` into a `Value`); `None` where it
/// does not.
pub uninterp spec fn rules_meta_json(content: Seq<char>) -> Option<
    (Option<Seq<Option<Seq<char>>>>, Option<u64>, Option<Seq<char>>),
>;

/// `serde_json::from_str::<Value>` on a metadata file's content, with the
/// fields `sources` (as an array, each entry as a string), `total_rules` (as
/// an unsigned integer) and `updated_at` (as a string) read out of the value.
#[verifier::external_body]
fn rules_meta_of_text(content: &str) -> (r: Option<RawRulesMeta>)
    ensures
        match r {
            Some(m) => rules_meta_json(content@) == Some(raw_meta_view(m)),
            None => rules_meta_json(content@) is None,
        },
{
    let v: serde_json::Value = serde_json::from_str(content).ok()?;
    Some(RawRulesMeta {
        sources: v["sources"].as_array().map(|a| a.iter().map(|s| s.as_str().map(|x| x.to_string())).collect()),
        total_rules: v["total_rules"].as_u64(),
        updated_at: v["updated_at"].as_str().map(|s| s.to_string()),
    })
}

/// The strings among `entries`, in order.
pub open spec fn string_entries(entries: Seq<Option<Seq<char>>>) -> Seq<Seq<char>>
    decreases entries.len(),
{
    if entries.len() == 0 {
        Seq::empty()
    } else {
        let rest = string_entries(entries.drop_last());
        match entries.last() {
            Some(t) => rest.push(t),
            None => rest,
        }
    }
}

/// What is known of the rules in `dir` from its metadata, where it could be
/// read as JSON: the string entries of `sources` (none without an array), the
/// number of rules (0 without it) and the time of update; the directory
/// alone otherwise.
pub open spec fn rules_info_of(r: RulesInfo, dir: String, meta: Option<
    (Option<Seq<Option<Seq<char>>>>, Option<u64>, Option<Seq<char>>),
>) -> bool {
    &&& r.dir == dir
    &&& match meta {
        None => r.sources.len() == 0 && r.total_rules == 0 && r.updated_at is None,
        Some(m) => {
            &&& texts(r.sources@) == (match m.0 {
                Some(v) => string_entries(v),
                None => Seq::empty(),
            })
            &&& r.total_rules == (match m.1 {
                Some(n) => n as usize,
                None => 0usize,
            })
            &&& opt_view(r.updated_at) == m.2
        },
    }
}

/// What is known of the rules in `dir` from its metadata fields, where
/// there are any (see `rules_info_of`).
pub fn rules_info_from_meta(dir: String, meta: Option<RawRulesMeta>) -> (r: RulesInfo)
    ensures
        rules_info_of(r, dir, match meta {
            Some(m) => Some(raw_meta_view(m)),
            None => None,
        }),
{
    match meta {
        Some(m) => {
            let mut sources: Vec<String> = Vec::new();
            match m.sources {
                Some(v) => {
                    let ghost ev = v@.map_values(|e: Option<String>| opt_view(e));
                    let mut i: usize = 0;
                    while i < v.len()
                        invariant
                            i <= v.len(),
                            ev == v@.map_values(|e: Option<String>| opt_view(e)),
                            texts(sources@) == string_entries(ev.take(i as int)),
                        decreases v.len() - i,
                    {
                        let ghost before = texts(sources@);
                        assert(ev.take(i + 1).drop_last() =~= ev.take(i as int));
                        match &v[i] {
                            Some(t) => {
                                sources.push(t.clone());
                                assert(texts(sources@) =~= before.push(t@));
                            },
                            None => {},
                        }
                        i = i + 1;
                    }
                    assert(ev.take(v.len() as int) =~= ev);
                },
                None => {
                    assert(texts(sources@) =~= Seq::<Seq<char>>::empty());
                },
            }
            RulesInfo {
                dir,
                sources,
                total_rules: match m.total_rules {
                    Some(n) => n as usize,
                    None => 0,
                },
                updated_at: m.updated_at,
            }
        },
        None => RulesInfo { dir, sources: Vec::new(), total_rules: 0, updated_at: None },
    }
}

/// What is known of the rules in `dir` from the content of its metadata file
/// `.rules.meta`, where it could be read (see `rules_info_of`).
pub fn rules_info_from_text(dir: String, content: Option<&str>) -> (r: RulesInfo)
    ensures
        rules_info_of(r, dir, match content {
            Some(c) => rules_meta_json(c@),
            None => None,
        }),
{
    let meta = match content {
        Some(c) => rules_meta_of_text(c),
        None => None,
    };
    rules_info_from_meta(dir, meta)
}

/// The arguments OpenGrep is run with: JSON output, quietly, the timeout, the
/// number of jobs where one is set, and each rules directory.
pub open spec fn opengrep_args_of(timeout: u64, jobs: u32, config_dirs: Seq<Seq<char>>) -> Seq<Seq<char>> {
    seq!["--json"@, "--quiet"@, "--timeout="@ + decimal_text(timeout as nat)] + (if jobs > 0 {
        seq!["--jobs="@ + decimal_text(jobs as nat)]
    } else {
        Seq::empty()
    }) + config_dirs.map_values(|d: Seq<char>| "--config="@ + d)
}

/// The arguments OpenGrep is run with (see `opengrep_args_of`).
pub fn opengrep_args(timeout: u64, jobs: u32, config_dirs: &Vec<String>) -> (r: Vec<String>)
    ensures
        texts(r@) == opengrep_args_of(timeout, jobs, texts(config_dirs@)),
{
    let mut t = String::from_str("--timeout=");
    t.append(format_decimal(timeout).as_str());
    let mut args = vec![String::from_str("--json"), String::from_str("--quiet"), t];
    if jobs > 0 {
        let mut j = String::from_str("--jobs=");
        j.append(format_decimal(jobs as u64).as_str());
        args.push(j);
    }
    let ghost head = texts(args@);
    assert(head =~= seq!["--json"@, "--quiet"@, "--timeout="@ + decimal_text(timeout as nat)] + (if jobs > 0 {
        seq!["--jobs="@ + decimal_text(jobs as nat)]
    } else {
        Seq::empty()
    }));
    let mut i: usize = 0;
    while i < config_dirs.len()
        invariant
            i <= config_dirs.len(),
            texts(args@) == head + texts(config_dirs@).take(i as int).map_values(|d: Seq<char>| "--config="@ + d),
        decreases config_dirs.len() - i,
    {
        let mut c = String::from_str("--config=");
        c.append(config_dirs[i].as_str());
        let ghost before = texts(args@);
        args.push(c);
        assert(texts(args@) =~= before.push("--config="@ + config_dirs@[i as int]@));
        assert(texts(config_dirs@).take(i + 1).map_values(|d: Seq<char>| "--config="@ + d) =~= texts(
            config_dirs@,
        ).take(i as int).map_values(|d: Seq<char>| "--config="@ + d).push("--config="@ + config_dirs@[i as int]@));
        i = i + 1;
    }
    assert(texts(config_dirs@).take(i as int) =~= texts(config_dirs@));
    args
}

/// The languages whose rule directories a scan without a language uses.
pub open spec fn known_rule_languages_seq() -> Seq<Seq<char>> {
    seq![
        "java"@,
        "python"@,
        "javascript"@,
        "typescript"@,
        "go"@,
        "rust"@,
        "c"@,
        "cpp"@,
        "ruby"@,
        "php"@,
        "kotlin"@,
        "scala"@,
        "swift"@,
    ]
}

/// The languages whose rule directories a scan without a language uses, in order.
pub fn known_rule_languages() -> (r: Vec<String>)
    ensures
        texts(r@) == known_rule_languages_seq(),
{
    let r = vec![
        String::from_str("java"),
        String::from_str("python"),
        String::from_str("javascript"),
        String::from_str("typescript"),
        String::from_str("go"),
        String::from_str("rust"),
        String::from_str("c"),
        String::from_str("cpp"),
        String::from_str("ruby"),
        String::from_str("php"),
        String::from_str("kotlin"),
        String::from_str("scala"),
        String::from_str("swift"),
    ];
    assert(texts(r@) =~= known_rule_languages_seq());
    r
}

/// The rule directories a scan uses, below `rules_dir`: for a language, its
/// directory where that exists, else the root; without one, the directories of
/// the known languages that exist (`present`, as found, in the order listed),
/// else the root.
pub open spec fn rule_dirs_of(rules_dir: Seq<char>, lang: Option<Seq<char>>, lang_dir_exists: bool, present: Seq<
    Seq<char>,
>) -> Seq<Seq<char>> {
    match lang {
        Some(l) => if lang_dir_exists {
            seq![rules_dir + "/"@ + l]
        } else {
            seq![rules_dir]
        },
        None => if present.len() == 0 {
            seq![rules_dir]
        } else {
            present.map_values(|l: Seq<char>| rules_dir + "/"@ + l)
        },
    }
}

fn join_dir(dir: &str, name: &str) -> (r: String)
    ensures
        r@ == dir@ + "/"@ + name@,
{
    let mut p = String::from_str(dir);
    p.append("/");
    p.append(name);
    p
}

/// The rule directories a scan uses (see `rule_dirs_of`).
pub fn rule_config_dirs(rules_dir: &str, lang: Option<&str>, lang_dir_exists: bool, present: &Vec<String>) -> (r: Vec<
    String,
>)
    ensures
        texts(r@) == rule_dirs_of(
            rules_dir@,
            match lang {
                Some(l) => Some(l@),
                None => None,
            },
            lang_dir_exists,
            texts(present@),
        ),
{
    match lang {
        Some(l) => {
            let v = if lang_dir_exists {
                vec![join_dir(rules_dir, l)]
            } else {
                vec![String::from_str(rules_dir)]
            };
            assert(texts(v@) =~= seq![v@[0]@]);
            v
        },
        None => {
            if present.len() == 0 {
                let v = vec![String::from_str(rules_dir)];
                assert(texts(v@) =~= seq![v@[0]@]);
                v
            } else {
                let mut out: Vec<String> = Vec::new();
                let mut i: usize = 0;
                while i < present.len()
                    invariant
                        i <= present.len(),
                        texts(out@) == texts(present@).take(i as int).map_values(|l: Seq<char>| rules_dir@ + "/"@ + l),
                    decreases present.len() - i,
                {
                    let ghost before = texts(out@);
                    out.push(join_dir(rules_dir, present[i].as_str()));
                    assert(texts(out@) =~= before.push(rules_dir@ + "/"@ + present@[i as int]@));
                    assert(texts(present@).take(i + 1).map_values(|l: Seq<char>| rules_dir@ + "/"@ + l) =~= texts(
                        present@,
                    ).take(i as int).map_values(|l: Seq<char>| rules_dir@ + "/"@ + l).push(
                        rules_dir@ + "/"@ + present@[i as int]@,
                    ));
                    i = i + 1;
                }
                assert(texts(present@).take(i as int) =~= texts(present@));
                out
            }
        },
    }
}

/// Whether a failed OpenGrep run only found nothing to scan: exit status 2
/// with no error text, or one saying there are no rules or no files.
pub open spec fn harmless_exit_of(exit_code: i32, stderr: Seq<char>) -> bool {
    exit_code == 2 && (trim_text(stderr).len() == 0 || has_infix(trim_text(stderr), "No rules"@) || has_infix(
        trim_text(stderr),
        "No files"@,
    ))
}

/// Whether a failed OpenGrep run only found nothing to scan (see `harmless_exit_of`).
pub fn harmless_exit(exit_code: i32, stderr: &str) -> (r: bool)
    ensures
        r == harmless_exit_of(exit_code, stderr@),
{
    if exit_code != 2 {
        return false;
    }
    let t = trim_str(stderr);
    t.unicode_len() == 0 || str_contains(t.as_str(), "No rules") || str_contains(t.as_str(), "No files")
}

/// `n` in decimal, with a minus sign where it is negative.
pub open spec fn signed_decimal(n: int) -> Seq<char> {
    if n < 0 {
        "-"@ + decimal_text((-n) as nat)
    } else {
        decimal_text(n as nat)
    }
}

fn format_signed(n: i32) -> (r: String)
    ensures
        r@ == signed_decimal(n as int),
{
    if n < 0 {
        let m: u64 = (0i64 - (n as i64)) as u64;
        let mut s = String::from_str("-");
        s.append(format_decimal(m).as_str());
        s
    } else {
        format_decimal(n as u64)
    }
}

/// The first `k` lines of `ls` joined by ` | `.
pub open spec fn joined_head(ls: Seq<Seq<char>>, k: int) -> Seq<char>
    decreases k,
{
    if k <= 0 {
        Seq::empty()
    } else if k == 1 {
        ls[0]
    } else {
        joined_head(ls, k - 1) + " | "@ + ls[k - 1]
    }
}

/// Where a failed OpenGrep run (other than one that found nothing) says
/// nothing on its error stream: the first five lines of its output joined by
/// ` | `.
pub open spec fn stdout_head(stdout: Seq<char>) -> Seq<char> {
    let ls = lines_text(stdout);
    joined_head(ls, if ls.len() < 5 {
        ls.len() as int
    } else {
        5
    })
}

/// The report of a failed OpenGrep run that says nothing on its error stream
/// but printed something: its exit status and the head of its output, before
/// any cut.
pub open spec fn exit_report_with_head(exit_code: i32, stdout: Seq<char>) -> Seq<char> {
    "OpenGrep exited with status "@ + signed_decimal(exit_code as int) + " (no stderr). stdout: "@ + stdout_head(
        stdout,
    )
}

/// Whether the report of a failed run can be cut to 500 bytes where needed:
/// only a report with the head of the output is cut, and the cut must fall at
/// the end of a character (elsewhere `String::truncate` panics).
pub open spec fn exit_report_cuts_cleanly(exit_code: i32, stderr: Seq<char>, stdout: Seq<char>) -> bool {
    ||| trim_text(stderr).len() > 0
    ||| stdout_head(stdout).len() == 0
    ||| text_bytes(exit_report_with_head(exit_code, stdout)) <= 500
    ||| byte_boundary(exit_report_with_head(exit_code, stdout), 500)
}

/// What is reported of a failed OpenGrep run: its error text, trimmed, where it
/// has one; else its exit status, with the head of its output where there is
/// one, that report cut to its first 500 bytes.
pub open spec fn exit_error_of(exit_code: i32, stderr: Seq<char>, stdout: Seq<char>) -> Seq<char> {
    if trim_text(stderr).len() > 0 {
        trim_text(stderr)
    } else if stdout_head(stdout).len() == 0 {
        "OpenGrep exited with status "@ + signed_decimal(exit_code as int) + " (no stderr)"@
    } else {
        cut_to_bytes(exit_report_with_head(exit_code, stdout), 500)
    }
}

/// What is reported of a failed OpenGrep run (see `exit_error_of`).
pub fn exit_error_message(exit_code: i32, stderr: &str, stdout: &str) -> (r: String)
    requires
        exit_report_cuts_cleanly(exit_code, stderr@, stdout@),
    ensures
        r@ == exit_error_of(exit_code, stderr@, stdout@),
{
    let t = trim_str(stderr);
    if t.unicode_len() > 0 {
        return t;
    }
    let lines = lines_of(stdout);
    let ghost ls = texts(lines@);
    let n: usize = if lines.len() < 5 {
        lines.len()
    } else {
        5
    };
    let mut head = String::new();
    let mut i: usize = 0;
    while i < n
        invariant
            i <= n,
            n <= lines.len(),
            ls == texts(lines@),
            head@ == joined_head(ls, i as int),
        decreases n - i,
    {
        if i > 0 {
            head.append(" | ");
        }
        head.append(lines[i].as_str());
        i = i + 1;
    }
    let mut m = String::from_str("OpenGrep exited with status ");
    m.append(format_signed(exit_code).as_str());
    if head.unicode_len() == 0 {
        m.append(" (no stderr)");
    } else {
        m.append(" (no stderr). stdout: ");
        m.append(head.as_str());
        m = cut_str_to_bytes(m.as_str(), 500);
    }
    m
}

/// Whether the report of a failed run can be made (see
/// `exit_report_cuts_cleanly`).
pub fn exit_error_cuts_cleanly(exit_code: i32, stderr: &str, stdout: &str) -> (r: bool)
    ensures
        r == exit_report_cuts_cleanly(exit_code, stderr@, stdout@),
{
    let t = trim_str(stderr);
    if t.unicode_len() > 0 {
        return true;
    }
    let lines = lines_of(stdout);
    let ghost ls = texts(lines@);
    let n: usize = if lines.len() < 5 {
        lines.len()
    } else {
        5
    };
    let mut head = String::new();
    let mut i: usize = 0;
    while i < n
        invariant
            i <= n,
            n <= lines.len(),
            ls == texts(lines@),
            head@ == joined_head(ls, i as int),
        decreases n - i,
    {
        if i > 0 {
            head.append(" | ");
        }
        head.append(lines[i].as_str());
        i = i + 1;
    }
    if head.unicode_len() == 0 {
        return true;
    }
    let mut m = String::from_str("OpenGrep exited with status ");
    m.append(format_signed(exit_code).as_str());
    m.append(" (no stderr). stdout: ");
    m.append(head.as_str());
    truncates_cleanly(m.as_str(), 500)
}

/// The tools a scan can be run with: OpenGrep, also chosen as `auto`.
pub open spec fn scan_tool_supported(tool: Seq<char>) -> bool {
    tool == "opengrep"@ || tool == "auto"@
}

/// Checks the tool a scan is asked for.
pub fn check_scan_tool(tool: &str) -> (r: Result<(), String>)
    ensures
        scan_tool_supported(tool@) ==> r is Ok,
        !scan_tool_supported(tool@) ==> (r matches Err(e) && e@ == "不支持的扫描工具: "@ + tool@),
{
    if crate::text::same_text(tool, "opengrep") || crate::text::same_text(tool, "auto") {
        Ok(())
    } else {
        let mut e = String::from_str("不支持的扫描工具: ");
        e.append(tool);
        Err(e)
    }
}

/// How the text report lists a finding.
pub open spec fn finding_line(f: Finding) -> Seq<char> {
    "    - "@ + f.title@ + " ("@ + f.file_path@ + ":"@ + decimal_text(f.line as nat) + ")\n"@
}

/// The lines of the first `k` findings.
pub open spec fn finding_lines(fs: Seq<Finding>, k: int) -> Seq<char>
    decreases k,
{
    if k <= 0 {
        Seq::empty()
    } else {
        finding_lines(fs, k - 1) + finding_line(fs[k - 1])
    }
}

/// How many findings the text report lists.
pub const LISTED_FINDINGS: usize = 5;

/// The findings part of the text report: that none were found; or how many,
/// the first five, and how many more there are.
pub open spec fn scan_summary_text(fs: Seq<Finding>) -> Seq<char> {
    if fs.len() == 0 {
        "  ✅ 未发现问题\n"@
    } else {
        let shown = if fs.len() > LISTED_FINDINGS { LISTED_FINDINGS as int } else { fs.len() as int };
        "  发现问题: "@ + decimal_text(fs.len()) + "\n"@ + finding_lines(fs, shown) + if fs.len() > LISTED_FINDINGS {
            "    ... 还有 "@ + decimal_text((fs.len() - LISTED_FINDINGS) as nat) + " 个问题\n"@
        } else {
            Seq::empty()
        }
    }
}

/// The findings part of the text report (see `scan_summary_text`).
pub fn scan_summary(findings: &Vec<Finding>) -> (r: String)
    ensures
        r@ == scan_summary_text(findings@),
{
    let n = findings.len();
    if n == 0 {
        return String::from_str("  ✅ 未发现问题\n");
    }
    let shown = if n > LISTED_FINDINGS { LISTED_FINDINGS } else { n };
    let mut out = String::from_str("  发现问题: ");
    out.append(format_decimal(n as u64).as_str());
    out.append("\n");
    let ghost head = out@;
    let mut i: usize = 0;
    while i < shown
        invariant
            i <= shown,
            shown <= findings.len(),
            out@ == head + finding_lines(findings@, i as int),
        decreases shown - i,
    {
        let f = &findings[i];
        out.append("    - ");
        out.append(f.title.as_str());
        out.append(" (");
        out.append(f.file_path.as_str());
        out.append(":");
        out.append(format_decimal(f.line as u64).as_str());
        out.append(")\n");
        assert(out@ =~= head + finding_lines(findings@, i + 1));
        i = i + 1;
    }
    if n > LISTED_FINDINGS {
        out.append("    ... 还有 ");
        out.append(format_decimal((n - LISTED_FINDINGS) as u64).as_str());
        out.append(" 个问题\n");
    }
    out
}

} // verus!
