use crate::text::{
    ascii_lower_text, has_infix, has_prefix, lines_of, lines_text, str_contains, str_starts_with, str_to_ascii_lower,
    same_text, texts, words_of, words_text,
};
use crate::mcp::registry::{join_strings, join_text, string_views};
use crate::mcp::services::dependency::{infer_language_from_path, language_of_code_extension};
use crate::mcp::services::treesitter::path_extension;
use crate::text::{trim_str, trim_text};
use vstd::prelude::*;

verus! {

/// A language that structural analysis understands.
#[derive(Debug, Clone, Copy, PartialEq, Eq, Structural)]
pub enum SupportedLanguage {
    /// Java.
    Java,
    /// Rust.
    Rust,
    /// C.
    C,
    /// C++.
    Cpp,
    /// Python.
    Python,
    /// Go.
    Go,
    /// JavaScript.
    JavaScript,
    /// TypeScript.
    TypeScript,
}

/// The language a user names, ignoring case, with the common short names.
pub open spec fn language_named(name: Seq<char>) -> Option<SupportedLanguage> {
    let l = ascii_lower_text(name);
    if l == "java"@ {
        Some(SupportedLanguage::Java)
    } else if l == "rust"@ {
        Some(SupportedLanguage::Rust)
    } else if l == "c"@ {
        Some(SupportedLanguage::C)
    } else if l == "cpp"@ || l == "c++"@ {
        Some(SupportedLanguage::Cpp)
    } else if l == "python"@ {
        Some(SupportedLanguage::Python)
    } else if l == "go"@ {
        Some(SupportedLanguage::Go)
    } else if l == "javascript"@ || l == "js"@ {
        Some(SupportedLanguage::JavaScript)
    } else if l == "typescript"@ || l == "ts"@ {
        Some(SupportedLanguage::TypeScript)
    } else {
        None
    }
}

/// The language a user names (see `language_named`). Lower-casing goes by ASCII;
/// no other character lower-cases to a letter of these names.
pub fn detect_supported_language(language: &str) -> (r: Option<SupportedLanguage>)
    ensures
        r == language_named(language@),
{
    let l = str_to_ascii_lower(language);
    let t = l.as_str();
    if same_text(t, "java") {
        Some(SupportedLanguage::Java)
    } else if same_text(t, "rust") {
        Some(SupportedLanguage::Rust)
    } else if same_text(t, "c") {
        Some(SupportedLanguage::C)
    } else if same_text(t, "cpp") || same_text(t, "c++") {
        Some(SupportedLanguage::Cpp)
    } else if same_text(t, "python") {
        Some(SupportedLanguage::Python)
    } else if same_text(t, "go") {
        Some(SupportedLanguage::Go)
    } else if same_text(t, "javascript") || same_text(t, "js") {
        Some(SupportedLanguage::JavaScript)
    } else if same_text(t, "typescript") || same_text(t, "ts") {
        Some(SupportedLanguage::TypeScript)
    } else {
        None
    }
}

/// Whether a diff line names files: a `diff --git`, `+++` or `---` line.
pub open spec fn file_header_line(l: Seq<char>) -> bool {
    has_prefix(l, "diff --git"@) || has_prefix(l, "+++"@) || has_prefix(l, "---"@)
}

/// Whether a line mentions a file extension of `lang`.
pub open spec fn mentions_language(l: Seq<char>, lang: SupportedLanguage) -> bool {
    match lang {
        SupportedLanguage::Rust => has_infix(l, ".rs"@),
        SupportedLanguage::Java => has_infix(l, ".java"@),
        SupportedLanguage::Python => has_infix(l, ".py"@) || has_infix(l, ".pyi"@),
        SupportedLanguage::Go => has_infix(l, ".go"@),
        SupportedLanguage::JavaScript => has_infix(l, ".js"@) || has_infix(l, ".mjs"@) || has_infix(l, ".cjs"@),
        SupportedLanguage::TypeScript => has_infix(l, ".ts"@) || has_infix(l, ".tsx"@),
        SupportedLanguage::C => has_infix(l, ".c"@) && !has_infix(l, ".cpp"@) && !has_infix(l, ".cc"@),
        SupportedLanguage::Cpp => has_infix(l, ".cpp"@) || has_infix(l, ".cc"@) || has_infix(l, ".cxx"@) || has_infix(
            l,
            ".hpp"@,
        ),
    }
}

/// Whether some file-naming line of the diff mentions an extension of `lang`.
pub open spec fn diff_has_language(diff: Seq<char>, lang: SupportedLanguage) -> bool {
    exists|i: int|
        0 <= i < lines_text(diff).len() && file_header_line(#[trigger] lines_text(diff)[i]) && mentions_language(
            lines_text(diff)[i],
            lang,
        )
}

fn line_mentions(l: &str, lang: SupportedLanguage) -> (r: bool)
    ensures
        r == mentions_language(l@, lang),
{
    match lang {
        SupportedLanguage::Rust => str_contains(l, ".rs"),
        SupportedLanguage::Java => str_contains(l, ".java"),
        SupportedLanguage::Python => str_contains(l, ".py") || str_contains(l, ".pyi"),
        SupportedLanguage::Go => str_contains(l, ".go"),
        SupportedLanguage::JavaScript => str_contains(l, ".js") || str_contains(l, ".mjs") || str_contains(l, ".cjs"),
        SupportedLanguage::TypeScript => str_contains(l, ".ts") || str_contains(l, ".tsx"),
        SupportedLanguage::C => str_contains(l, ".c") && !str_contains(l, ".cpp") && !str_contains(l, ".cc"),
        SupportedLanguage::Cpp => str_contains(l, ".cpp") || str_contains(l, ".cc") || str_contains(l, ".cxx")
            || str_contains(l, ".hpp"),
    }
}

/// The languages in the order they are listed.
pub open spec fn language_order() -> Seq<SupportedLanguage> {
    seq![
        SupportedLanguage::Rust,
        SupportedLanguage::Java,
        SupportedLanguage::Python,
        SupportedLanguage::Go,
        SupportedLanguage::JavaScript,
        SupportedLanguage::TypeScript,
        SupportedLanguage::C,
        SupportedLanguage::Cpp,
    ]
}

fn languages_listed() -> (r: Vec<SupportedLanguage>)
    ensures
        r@ == language_order(),
{
    let r = vec![
        SupportedLanguage::Rust,
        SupportedLanguage::Java,
        SupportedLanguage::Python,
        SupportedLanguage::Go,
        SupportedLanguage::JavaScript,
        SupportedLanguage::TypeScript,
        SupportedLanguage::C,
        SupportedLanguage::Cpp,
    ];
    assert(r@ =~= language_order());
    r
}

/// The languages whose files the diff names, judged by the extensions its
/// `diff --git`, `+++` and `---` lines mention; each once.
pub fn infer_all_languages_from_diff(diff: &str) -> (r: Vec<SupportedLanguage>)
    ensures
        forall|lang: SupportedLanguage| r@.contains(lang) <==> diff_has_language(diff@, lang),
        r@.no_duplicates(),
{
    let lines = lines_of(diff);
    let ghost ls = texts(lines@);
    let all = languages_listed();
    let mut found: Vec<SupportedLanguage> = Vec::new();
    let mut k: usize = 0;
    while k < all.len()
        invariant
            k <= all.len(),
            all@ == language_order(),
            ls == texts(lines@),
            ls == lines_text(diff@),
            found@.no_duplicates(),
            forall|j: int| 0 <= j < found.len() ==> language_order().take(k as int).contains(#[trigger] found@[j]),
            forall|j: int|
                0 <= j < k ==> (found@.contains(#[trigger] language_order()[j]) <==> diff_has_language(
                    diff@,
                    language_order()[j],
                )),
        decreases all.len() - k,
    {
        let lang = all[k];
        let mut seen = false;
        let mut i: usize = 0;
        while i < lines.len() && !seen
            invariant
                i <= lines.len(),
                ls == texts(lines@),
                seen ==> diff_has_language(diff@, lang),
                !seen ==> forall|j: int|
                    0 <= j < i ==> !(file_header_line(#[trigger] ls[j]) && mentions_language(ls[j], lang)),
                ls == lines_text(diff@),
            decreases lines.len() - i,
        {
            let l = lines[i].as_str();
            assert(ls[i as int] == l@);
            if (str_starts_with(l, "diff --git") || str_starts_with(l, "+++") || str_starts_with(l, "---"))
                && line_mentions(l, lang) {
                seen = true;
            }
            i = i + 1;
        }
        let ghost before = found@;
        if seen {
            proof {
                assert(!before.contains(lang)) by {
                    if before.contains(lang) {
                        let j = choose|j: int| 0 <= j < before.len() && before[j] == lang;
                        assert(language_order().take(k as int).contains(before[j]));
                    }
                }
            }
            found.push(lang);
        }
        proof {
            assert(language_order().take(k + 1) =~= language_order().take(k as int).push(lang));
            assert forall|j: int| 0 <= j < found.len() implies language_order().take(k + 1).contains(
                #[trigger] found@[j],
            ) by {
                if j < before.len() {
                    assert(language_order().take(k as int).contains(before[j]));
                } else {
                    assert(language_order().take(k + 1)[k as int] == lang);
                }
            }
            assert forall|j: int| 0 <= j < k + 1 implies (found@.contains(#[trigger] language_order()[j])
                <==> diff_has_language(diff@, language_order()[j])) by {
                if j < k {
                    if found@.contains(language_order()[j]) {
                        let t = choose|t: int| 0 <= t < found.len() && found@[t] == language_order()[j];
                        if t < before.len() {
                            assert(before.contains(language_order()[j]));
                        } else {
                            assert(found@[t] == lang);
                        }
                    }
                    if before.contains(language_order()[j]) {
                        let t = choose|t: int| 0 <= t < before.len() && before[t] == language_order()[j];
                        assert(found@[t] == before[t]);
                    }
                } else {
                    if seen {
                        assert(found@[found.len() - 1] == lang);
                    } else {
                        assert(!before.contains(lang)) by {
                            if before.contains(lang) {
                                let t = choose|t: int| 0 <= t < before.len() && before[t] == lang;
                                assert(language_order().take(k as int).contains(before[t]));
                            }
                        }
                    }
                }
            }
        }
        k = k + 1;
    }
    proof {
        assert(language_order().take(8) =~= language_order());
        assert forall|lang: SupportedLanguage| found@.contains(lang) <==> diff_has_language(diff@, lang) by {
            let j: int = match lang {
                SupportedLanguage::Rust => 0,
                SupportedLanguage::Java => 1,
                SupportedLanguage::Python => 2,
                SupportedLanguage::Go => 3,
                SupportedLanguage::JavaScript => 4,
                SupportedLanguage::TypeScript => 5,
                SupportedLanguage::C => 6,
                SupportedLanguage::Cpp => 7,
            };
            assert(language_order()[j] == lang);
        }
    }
    found
}

/// The path of the changed file on a `diff --git a/... b/...` line: the second
/// word after `diff --git `, without a leading `b/`.
pub open spec fn diff_line_path(line: Seq<char>) -> Option<Seq<char>> {
    let head = "diff --git "@;
    if has_prefix(line, head) && words_text(line.skip(head.len() as int)).len() >= 2 {
        let b = words_text(line.skip(head.len() as int))[1];
        if has_prefix(b, "b/"@) {
            Some(b.skip(2))
        } else {
            Some(b)
        }
    } else {
        None
    }
}

/// The path of the changed file on a `diff --git` line (see `diff_line_path`).
pub fn extract_file_path_from_diff_line(line: &str) -> (r: Option<String>)
    ensures
        r matches Some(p) ==> diff_line_path(line@) == Some(p@),
        r is None ==> diff_line_path(line@) is None,
{
    if !str_starts_with(line, "diff --git ") {
        return None;
    }
    proof {
        reveal_strlit("diff --git ");
    }
    let cs = crate::text::chars_of(line);
    let rest = crate::text::string_from(&cs, 11);
    assert(rest@ =~= line@.skip(11));
    let words = words_of(rest.as_str());
    if words.len() < 2 {
        return None;
    }
    let b = &words[1];
    assert(words@.map_values(|w: Vec<char>| w@)[1] == b@);
    if b.len() >= 2 && b[0] == 'b' && b[1] == '/' {
        proof {
            reveal_strlit("b/");
        }
        let p = crate::text::string_from(b, 2);
        assert(p@ =~= b@.skip(2));
        assert(b@.take(2) =~= "b/"@);
        Some(p)
    } else {
        proof {
            reveal_strlit("b/");
        }
        let p = crate::text::string_from(b, 0);
        assert(p@ =~= b@);
        assert(!has_prefix(b@, "b/"@)) by {
            if b@.len() >= 2 {
                assert(b@.take(2)[0] == b@[0]);
                assert(b@.take(2)[1] == b@[1]);
            }
        }
        Some(p)
    }
}

/// The name a language goes by in analysis results.
pub open spec fn language_name(lang: SupportedLanguage) -> Seq<char> {
    match lang {
        SupportedLanguage::Java => "java"@,
        SupportedLanguage::Rust => "rust"@,
        SupportedLanguage::C => "c"@,
        SupportedLanguage::Cpp => "cpp"@,
        SupportedLanguage::Python => "python"@,
        SupportedLanguage::Go => "go"@,
        SupportedLanguage::JavaScript => "javascript"@,
        SupportedLanguage::TypeScript => "typescript"@,
    }
}

impl SupportedLanguage {
    /// The name of the language (see `language_name`).
    pub fn name(&self) -> (r: String)
        ensures
            r@ == language_name(*self),
    {
        match self {
            SupportedLanguage::Java => String::from_str("java"),
            SupportedLanguage::Rust => String::from_str("rust"),
            SupportedLanguage::C => String::from_str("c"),
            SupportedLanguage::Cpp => String::from_str("cpp"),
            SupportedLanguage::Python => String::from_str("python"),
            SupportedLanguage::Go => String::from_str("go"),
            SupportedLanguage::JavaScript => String::from_str("javascript"),
            SupportedLanguage::TypeScript => String::from_str("typescript"),
        }
    }
}

/// The language of the file at `path`, by its extension.
pub open spec fn file_language(path: Seq<char>) -> Option<SupportedLanguage> {
    match path_extension(path) {
        Some(e) => language_of_code_extension(e),
        None => None,
    }
}

/// The language of the file at `path` (see `file_language`).
pub fn detect_language_from_file_path(path: &str) -> (r: Option<SupportedLanguage>)
    ensures
        r == file_language(path@),
{
    match infer_language_from_path(path) {
        Ok(lang) => Some(lang),
        Err(_) => None,
    }
}

/// One line of a diff read with the language of the current file `cur` and
/// whether a file section is open: the new language, the new section flag, and
/// the code line it yields, if any. A `diff --git` line opens a section and
/// takes the language of its path; a `+++ ` line takes the language of its path;
/// `index`, `---` and `@@` lines are skipped; an empty line closes the section.
/// In a file of known language an added line yields its text without the `+`,
/// and a context line that is not removed and not blank yields itself.
pub open spec fn diff_step(cur: Option<SupportedLanguage>, in_file: bool, line: Seq<char>) -> (
    Option<SupportedLanguage>,
    bool,
    Option<(SupportedLanguage, Seq<char>)>,
) {
    if has_prefix(line, "diff --git"@) {
        let c = match diff_line_path(line) {
            Some(p) => file_language(p),
            None => cur,
        };
        (c, true, None)
    } else if has_prefix(line, "+++"@) {
        let c = if has_prefix(line, "+++ "@) {
            file_language(line.skip(4))
        } else {
            cur
        };
        (c, in_file, None)
    } else if has_prefix(line, "index"@) || has_prefix(line, "---"@) || has_prefix(line, "@@"@) {
        (cur, in_file, None)
    } else if line.len() == 0 && in_file {
        (None, false, None)
    } else {
        match cur {
            Some(lang) => if has_prefix(line, "+"@) {
                (cur, in_file, Some((lang, line.skip(1))))
            } else if !has_prefix(line, "-"@) && trim_text(line).len() > 0 {
                (cur, in_file, Some((lang, line)))
            } else {
                (cur, in_file, None)
            },
            None => (cur, in_file, None),
        }
    }
}

/// The state after reading `lines` (see `diff_step`), with the code lines
/// yielded so far, each with its language, in order.
pub open spec fn diff_scan(lines: Seq<Seq<char>>) -> (
    Option<SupportedLanguage>,
    bool,
    Seq<(SupportedLanguage, Seq<char>)>,
)
    decreases lines.len(),
{
    if lines.len() == 0 {
        (None, false, Seq::empty())
    } else {
        let prev = diff_scan(lines.drop_last());
        let s = diff_step(prev.0, prev.1, lines.last());
        (
            s.0,
            s.1,
            match s.2 {
                Some(x) => prev.2.push(x),
                None => prev.2,
            },
        )
    }
}

/// The code lines of `lang` among `pairs`, in order.
pub open spec fn lines_for(pairs: Seq<(SupportedLanguage, Seq<char>)>, lang: SupportedLanguage) -> Seq<Seq<char>>
    decreases pairs.len(),
{
    if pairs.len() == 0 {
        Seq::empty()
    } else if pairs.last().0 == lang {
        lines_for(pairs.drop_last(), lang).push(pairs.last().1)
    } else {
        lines_for(pairs.drop_last(), lang)
    }
}

/// For each of `langs` that has code lines among `pairs`: its name and its lines
/// joined by newlines.
pub open spec fn grouped_code(pairs: Seq<(SupportedLanguage, Seq<char>)>, langs: Seq<SupportedLanguage>) -> Seq<
    (Seq<char>, Seq<char>),
>
    decreases langs.len(),
{
    if langs.len() == 0 {
        Seq::empty()
    } else {
        let r = grouped_code(pairs, langs.drop_last());
        let ls = lines_for(pairs, langs.last());
        if ls.len() > 0 {
            r.push((language_name(langs.last()), join_text(ls, "\n"@)))
        } else {
            r
        }
    }
}

/// The code of a diff grouped by language: for each language with code lines
/// (see `diff_scan`), its name and those lines joined by newlines.
pub open spec fn code_by_language(diff: Seq<char>) -> Seq<(Seq<char>, Seq<char>)> {
    grouped_code(diff_scan(lines_text(diff)).2, language_order())
}

/// The texts of name/code pairs.
pub open spec fn pair_texts(v: Seq<(String, String)>) -> Seq<(Seq<char>, Seq<char>)> {
    v.map_values(|p: (String, String)| (p.0@, p.1@))
}

/// The code lines of `pairs` with their texts.
pub open spec fn code_pair_texts(v: Seq<(SupportedLanguage, String)>) -> Seq<(SupportedLanguage, Seq<char>)> {
    v.map_values(|p: (SupportedLanguage, String)| (p.0, p.1@))
}

fn code_lines_of(diff: &str) -> (r: Vec<(SupportedLanguage, String)>)
    ensures
        code_pair_texts(r@) == diff_scan(lines_text(diff@)).2,
{
    let lines = lines_of(diff);
    let ghost ls = texts(lines@);
    let mut cur: Option<SupportedLanguage> = None;
    let mut in_file = false;
    let mut out: Vec<(SupportedLanguage, String)> = Vec::new();
    let mut i: usize = 0;
    while i < lines.len()
        invariant
            i <= lines.len(),
            ls == texts(lines@),
            ls == lines_text(diff@),
            diff_scan(ls.take(i as int)) == (cur, in_file, code_pair_texts(out@)),
        decreases lines.len() - i,
    {
        let l = lines[i].as_str();
        proof {
            assert(ls[i as int] == l@);
            assert(ls.take(i + 1).drop_last() =~= ls.take(i as int));
            reveal_strlit("diff --git");
            reveal_strlit("+++");
            reveal_strlit("+++ ");
            reveal_strlit("index");
            reveal_strlit("---");
            reveal_strlit("@@");
            reveal_strlit("+");
            reveal_strlit("-");
        }
        let ghost before = out@;
        assert(ls.take(i + 1).last() == l@);
        if str_starts_with(l, "diff --git") {
            match extract_file_path_from_diff_line(l) {
                Some(p) => {
                    cur = detect_language_from_file_path(p.as_str());
                },
                None => {},
            }
            in_file = true;
        } else if str_starts_with(l, "+++") {
            if str_starts_with(l, "+++ ") {
                let cs = crate::text::chars_of(l);
                let rest = crate::text::string_from(&cs, 4);
                assert(rest@ =~= l@.skip(4));
                cur = detect_language_from_file_path(rest.as_str());
            }
        } else if str_starts_with(l, "index") || str_starts_with(l, "---") || str_starts_with(l, "@@") {
        } else if l.unicode_len() == 0 && in_file {
            cur = None;
            in_file = false;
        } else {
            match cur {
                Some(lang) => {
                    if str_starts_with(l, "+") {
                        let cs = crate::text::chars_of(l);
                        let rest = crate::text::string_from(&cs, 1);
                        assert(rest@ =~= l@.skip(1));
                        out.push((lang, rest));
                        assert(code_pair_texts(out@) =~= code_pair_texts(before).push((lang, l@.skip(1))));
                    } else if !str_starts_with(l, "-") && trim_str(l).unicode_len() > 0 {
                        out.push((lang, lines[i].clone()));
                        assert(code_pair_texts(out@) =~= code_pair_texts(before).push((lang, l@)));
                    }
                },
                None => {},
            }
        }
        i = i + 1;
    }
    assert(ls.take(i as int) =~= ls);
    out
}

fn lines_of_language(pairs: &Vec<(SupportedLanguage, String)>, lang: SupportedLanguage) -> (r: Vec<String>)
    ensures
        string_views(r@) == lines_for(code_pair_texts(pairs@), lang),
{
    let ghost pv = code_pair_texts(pairs@);
    let mut out: Vec<String> = Vec::new();
    let mut i: usize = 0;
    while i < pairs.len()
        invariant
            i <= pairs.len(),
            pv == code_pair_texts(pairs@),
            string_views(out@) == lines_for(pv.take(i as int), lang),
        decreases pairs.len() - i,
    {
        let ghost before = string_views(out@);
        assert(pv.take(i + 1).drop_last() =~= pv.take(i as int));
        assert(pv.take(i + 1).last() == pv[i as int]);
        if pairs[i].0 == lang {
            out.push(pairs[i].1.clone());
            assert(string_views(out@) =~= before.push(pv[i as int].1));
        }
        i = i + 1;
    }
    assert(pv.take(i as int) =~= pv);
    out
}

/// The added and context lines of a diff grouped by the language of their file,
/// one entry per language that has any (see `code_by_language`), in the order
/// of `language_order`.
pub fn extract_code_by_language(diff: &str) -> (r: Vec<(String, String)>)
    ensures
        pair_texts(r@) == code_by_language(diff@),
{
    let pairs = code_lines_of(diff);
    let ghost pv = code_pair_texts(pairs@);
    let all = languages_listed();
    let mut out: Vec<(String, String)> = Vec::new();
    let mut k: usize = 0;
    while k < all.len()
        invariant
            k <= all.len(),
            all@ == language_order(),
            pv == code_pair_texts(pairs@),
            pv == diff_scan(lines_text(diff@)).2,
            pair_texts(out@) == grouped_code(pv, language_order().take(k as int)),
        decreases all.len() - k,
    {
        let lang = all[k];
        let ls = lines_of_language(&pairs, lang);
        let ghost before = pair_texts(out@);
        assert(language_order().take(k + 1).drop_last() =~= language_order().take(k as int));
        assert(language_order().take(k + 1).last() == lang);
        if ls.len() > 0 {
            let code = join_strings(&ls, "\n");
            out.push((lang.name(), code));
            assert(pair_texts(out@) =~= before.push((language_name(lang), join_text(lines_for(pv, lang), "\n"@))));
        }
        k = k + 1;
    }
    assert(language_order().take(k as int) =~= language_order());
    out
}

} // verus!
