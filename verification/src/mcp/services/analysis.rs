use crate::text::{decimal_text, format_decimal, same_text, texts};
use vstd::prelude::*;

verus! {

/// The file extensions analyzed: those of the language asked for (none for
/// an unknown one), else those of every supported language.
pub open spec fn analyzed_extensions(filter: Option<Seq<char>>) -> Seq<Seq<char>> {
    match filter {
        Some(l) => if l == "rust"@ {
            seq!["rs"@]
        } else if l == "java"@ {
            seq!["java"@]
        } else if l == "c"@ {
            seq!["c"@, "h"@]
        } else if l == "cpp"@ {
            seq!["cpp"@, "cc"@, "cxx"@, "hpp"@, "hxx"@]
        } else if l == "python"@ {
            seq!["py"@]
        } else if l == "go"@ {
            seq!["go"@]
        } else if l == "javascript"@ {
            seq!["js"@]
        } else if l == "typescript"@ {
            seq!["ts"@]
        } else {
            Seq::empty()
        },
        None => seq![
            "rs"@,
            "java"@,
            "c"@,
            "h"@,
            "cpp"@,
            "cc"@,
            "cxx"@,
            "hpp"@,
            "hxx"@,
            "py"@,
            "go"@,
            "js"@,
            "ts"@,
        ],
    }
}

fn strings(items: &[&str]) -> (r: Vec<String>)
    ensures
        r.len() == items.len(),
        forall|i: int| 0 <= i < items.len() ==> #[trigger] r@[i]@ == items@[i]@,
{
    let mut out: Vec<String> = Vec::new();
    let mut i: usize = 0;
    while i < items.len()
        invariant
            i <= items.len(),
            out.len() == i,
            forall|k: int| 0 <= k < i ==> #[trigger] out@[k]@ == items@[k]@,
        decreases items.len() - i,
    {
        out.push(String::from_str(items[i]));
        i = i + 1;
    }
    out
}

/// The file extensions analyzed (see `analyzed_extensions`).
pub fn extensions_for(filter: Option<&str>) -> (r: Vec<String>)
    ensures
        texts(r@) == analyzed_extensions(
            match filter {
                Some(l) => Some(l@),
                None => None,
            },
        ),
{
    let r = match filter {
        Some(l) => {
            if same_text(l, "rust") {
                strings(&["rs"])
            } else if same_text(l, "java") {
                strings(&["java"])
            } else if same_text(l, "c") {
                strings(&["c", "h"])
            } else if same_text(l, "cpp") {
                strings(&["cpp", "cc", "cxx", "hpp", "hxx"])
            } else if same_text(l, "python") {
                strings(&["py"])
            } else if same_text(l, "go") {
                strings(&["go"])
            } else if same_text(l, "javascript") {
                strings(&["js"])
            } else if same_text(l, "typescript") {
                strings(&["ts"])
            } else {
                Vec::new()
            }
        },
        None => strings(&["rs", "java", "c", "h", "cpp", "cc", "cxx", "hpp", "hxx", "py", "go", "js", "ts"]),
    };
    assert(texts(r@) =~= analyzed_extensions(
        match filter {
            Some(l) => Some(l@),
            None => None,
        },
    ));
    r
}

/// Whether a directory is left out of the search for code: build output,
/// dependencies and tool directories.
pub open spec fn skipped_directory_name(name: Seq<char>) -> bool {
    name == "target"@ || name == "node_modules"@ || name == ".git"@ || name == ".idea"@ || name == "vendor"@ || name
        == "build"@
}

/// Whether a directory is left out of the search for code (see `skipped_directory_name`).
pub fn is_skipped_directory(name: &str) -> (r: bool)
    ensures
        r == skipped_directory_name(name@),
{
    same_text(name, "target") || same_text(name, "node_modules") || same_text(name, ".git") || same_text(name, ".idea")
        || same_text(name, "vendor") || same_text(name, "build")
}

/// Whether a file with extension `ext` is analyzed under the language filter.
pub fn is_analyzed_file(ext: &str, filter: Option<&str>) -> (r: bool)
    ensures
        r == analyzed_extensions(
            match filter {
                Some(l) => Some(l@),
                None => None,
            },
        ).contains(ext@),
{
    let exts = extensions_for(filter);
    let ghost es = texts(exts@);
    let mut i: usize = 0;
    while i < exts.len()
        invariant
            i <= exts.len(),
            es == texts(exts@),
            es == analyzed_extensions(
                match filter {
                    Some(l) => Some(l@),
                    None => None,
                },
            ),
            forall|k: int| 0 <= k < i ==> es[k] != ext@,
        decreases exts.len() - i,
    {
        if same_text(exts[i].as_str(), ext) {
            assert(es[i as int] == ext@);
            return true;
        }
        i = i + 1;
    }
    false
}

/// Line counts and complexity of analyzed code.
pub struct CodeSummary {
    /// All lines.
    pub total_lines: usize,
    /// Lines of code.
    pub code_lines: usize,
    /// Comment lines.
    pub comment_lines: usize,
    /// Blank lines.
    pub blank_lines: usize,
    /// Complexity score.
    pub complexity_score: u32,
}

/// What the analysis of a directory adds up from its files.
pub struct DirectoryTotals {
    /// The files' summaries added up.
    pub summary: CodeSummary,
    /// The total complexity divided by the number of files found.
    pub average_complexity: u32,
    /// Each language of an analyzed file with how many files it has, in the
    /// order the languages first come.
    pub language_counts: Vec<(String, usize)>,
}

/// The five totals (all lines, code, comments, blank, complexity) of the
/// analyzed files' summaries.
pub open spec fn summed(files: Seq<(CodeSummary, String)>) -> (int, int, int, int, int)
    decreases files.len(),
{
    if files.len() == 0 {
        (0, 0, 0, 0, 0)
    } else {
        let t = summed(files.drop_last());
        let c = files.last().0;
        (
            t.0 + c.total_lines,
            t.1 + c.code_lines,
            t.2 + c.comment_lines,
            t.3 + c.blank_lines,
            t.4 + c.complexity_score,
        )
    }
}

/// Whether the five totals of `files` fit the summary's fields.
pub open spec fn totals_fit(files: Seq<(CodeSummary, String)>) -> bool {
    let t = summed(files);
    t.0 <= usize::MAX && t.1 <= usize::MAX && t.2 <= usize::MAX && t.3 <= usize::MAX && t.4 <= u32::MAX
}

proof fn lemma_summed_grows(files: Seq<(CodeSummary, String)>, i: int)
    requires
        0 <= i <= files.len(),
    ensures
        summed(files.take(i)).0 <= summed(files).0,
        summed(files.take(i)).1 <= summed(files).1,
        summed(files.take(i)).2 <= summed(files).2,
        summed(files.take(i)).3 <= summed(files).3,
        summed(files.take(i)).4 <= summed(files).4,
    decreases files.len(),
{
    if i < files.len() {
        lemma_summed_grows(files.drop_last(), i);
        assert(files.drop_last().take(i) =~= files.take(i));
    } else {
        assert(files.take(i) =~= files);
    }
}

/// `counts` with one more file of language `l`: its count raised where `l` is
/// listed, else `l` added at the end with one file.
pub open spec fn bump(counts: Seq<(Seq<char>, nat)>, l: Seq<char>) -> Seq<(Seq<char>, nat)>
    decreases counts.len(),
{
    if counts.len() == 0 {
        seq![(l, 1nat)]
    } else if counts[0].0 == l {
        seq![(l, counts[0].1 + 1)] + counts.skip(1)
    } else {
        seq![counts[0]] + bump(counts.skip(1), l)
    }
}

/// The languages of `files` with how many files each has, in the order the
/// languages first come.
pub open spec fn language_tally(files: Seq<(CodeSummary, String)>) -> Seq<(Seq<char>, nat)>
    decreases files.len(),
{
    if files.len() == 0 {
        Seq::empty()
    } else {
        bump(language_tally(files.drop_last()), files.last().1@)
    }
}

proof fn lemma_bump_found(counts: Seq<(Seq<char>, nat)>, l: Seq<char>, j: int)
    requires
        0 <= j < counts.len(),
        counts[j].0 == l,
        forall|k: int| 0 <= k < j ==> counts[k].0 != l,
    ensures
        bump(counts, l) == counts.update(j, (l, counts[j].1 + 1)),
    decreases counts.len(),
{
    if j > 0 {
        let t = counts.skip(1);
        assert forall|k: int| 0 <= k < j - 1 implies t[k].0 != l by {
            assert(t[k] == counts[k + 1]);
        }
        lemma_bump_found(t, l, j - 1);
        assert(seq![counts[0]] + t.update(j - 1, (l, counts[j].1 + 1)) =~= counts.update(j, (l, counts[j].1 + 1)));
    } else {
        assert(seq![(l, counts[0].1 + 1)] + counts.skip(1) =~= counts.update(0, (l, counts[0].1 + 1)));
    }
}

proof fn lemma_bump_new(counts: Seq<(Seq<char>, nat)>, l: Seq<char>)
    requires
        forall|k: int| 0 <= k < counts.len() ==> counts[k].0 != l,
    ensures
        bump(counts, l) == counts.push((l, 1nat)),
    decreases counts.len(),
{
    if counts.len() > 0 {
        let t = counts.skip(1);
        assert forall|k: int| 0 <= k < t.len() implies t[k].0 != l by {
            assert(t[k] == counts[k + 1]);
        }
        lemma_bump_new(t, l);
        assert(seq![counts[0]] + t.push((l, 1nat)) =~= counts.push((l, 1nat)));
    }
}

/// The counts as texts and numbers.
pub open spec fn count_views(v: Seq<(String, usize)>) -> Seq<(Seq<char>, nat)> {
    v.map_values(|p: (String, usize)| (p.0@, p.1 as nat))
}

fn tally_languages(files: &Vec<(CodeSummary, String)>) -> (r: Vec<(String, usize)>)
    ensures
        count_views(r@) == language_tally(files@),
{
    let mut counts: Vec<(String, usize)> = Vec::new();
    let mut i: usize = 0;
    while i < files.len()
        invariant
            i <= files.len(),
            count_views(counts@) == language_tally(files@.take(i as int)),
            forall|k: int| 0 <= k < counts.len() ==> counts@[k].1 <= i,
        decreases files.len() - i,
    {
        let l = files[i].1.as_str();
        let ghost cv = count_views(counts@);
        assert(files@.take(i + 1).drop_last() =~= files@.take(i as int));
        assert(files@.take(i + 1).last() == files@[i as int]);
        let mut j: usize = 0;
        let mut found = false;
        while j < counts.len() && !found
            invariant
                j <= counts.len(),
                cv == count_views(counts@),
                found ==> j > 0 && counts@[j - 1].0@ == l@,
                forall|k: int| 0 <= k < (if found { j - 1 } else { j as int }) ==> cv[k].0 != l@,
            decreases counts.len() - j,
        {
            if same_text(counts[j].0.as_str(), l) {
                found = true;
            }
            j = j + 1;
        }
        if found {
            let k = j - 1;
            let c = counts[k].1;
            let name = counts[k].0.clone();
            counts.set(k, (name, c + 1));
            proof {
                assert(cv[k as int].0 == l@);
                lemma_bump_found(cv, l@, k as int);
                assert(count_views(counts@) =~= cv.update(k as int, (l@, cv[k as int].1 + 1)));
            }
        } else {
            counts.push((files[i].1.clone(), 1));
            proof {
                lemma_bump_new(cv, l@);
                assert(count_views(counts@) =~= cv.push((l@, 1nat)));
            }
        }
        i = i + 1;
    }
    assert(files@.take(i as int) =~= files@);
    counts
}

/// Adds up the summaries of the analyzed files of a directory in which
/// `file_count` code files were found, and counts the files of each language.
/// The average complexity is the total over the number of files found (zero for
/// none); that number is taken as a `u32`.
pub fn directory_totals(files: &Vec<(CodeSummary, String)>, file_count: usize) -> (r: DirectoryTotals)
    requires
        totals_fit(files@),
        file_count <= u32::MAX,
    ensures
        r.summary.total_lines == summed(files@).0,
        r.summary.code_lines == summed(files@).1,
        r.summary.comment_lines == summed(files@).2,
        r.summary.blank_lines == summed(files@).3,
        r.summary.complexity_score == summed(files@).4,
        r.average_complexity == (if file_count > 0 {
            summed(files@).4 / (file_count as int)
        } else {
            0
        }),
        count_views(r.language_counts@) == language_tally(files@),
{
    let mut total: usize = 0;
    let mut code: usize = 0;
    let mut comment: usize = 0;
    let mut blank: usize = 0;
    let mut complexity: u32 = 0;
    let mut i: usize = 0;
    while i < files.len()
        invariant
            i <= files.len(),
            totals_fit(files@),
            summed(files@.take(i as int)) == (total as int, code as int, comment as int, blank as int, complexity as int),
        decreases files.len() - i,
    {
        proof {
            lemma_summed_grows(files@, i + 1);
            assert(files@.take(i + 1).drop_last() =~= files@.take(i as int));
            assert(files@.take(i + 1).last() == files@[i as int]);
        }
        let s = &files[i].0;
        total = total + s.total_lines;
        code = code + s.code_lines;
        comment = comment + s.comment_lines;
        blank = blank + s.blank_lines;
        complexity = complexity + s.complexity_score;
        i = i + 1;
    }
    assert(files@.take(i as int) =~= files@);
    let average_complexity = if file_count > 0 {
        complexity / (file_count as u32)
    } else {
        0
    };
    DirectoryTotals {
        summary: CodeSummary {
            total_lines: total,
            code_lines: code,
            comment_lines: comment,
            blank_lines: blank,
            complexity_score: complexity,
        },
        average_complexity,
        language_counts: tally_languages(files),
    }
}

/// The message of a directory analysis: none found, or how many files were
/// analyzed.
pub open spec fn directory_message_text(file_count: nat) -> Seq<char> {
    if file_count == 0 {
        "目录中未找到可分析的代码文件"@
    } else {
        "目录分析完成，共分析 "@ + decimal_text(file_count) + " 个文件"@
    }
}

/// The message of a directory analysis (see `directory_message_text`).
pub fn directory_message(file_count: usize) -> (r: String)
    ensures
        r@ == directory_message_text(file_count as nat),
{
    if file_count == 0 {
        String::from_str("目录中未找到可分析的代码文件")
    } else {
        let mut m = String::from_str("目录分析完成，共分析 ");
        let n = format_decimal(file_count as u64);
        m.append(n.as_str());
        m.append(" 个文件");
        m
    }
}

} // verus!
