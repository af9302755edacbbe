use crate::mcp::rmcp_compat::ServiceError;
use crate::text::{
    chars_of, find_last, has_infix, last_index_of, lemma_last_index_bounds, lemma_split_nonempty,
    same_text, split_str, split_text, str_contains, str_starts_with, has_prefix, string_from, texts,
};
use crate::mcp::McpService;
use vstd::prelude::*;

verus! {

/// The Tree-sitter code analysis service.
pub struct TreeSitterService {
    name: String,
    version: String,
    description: String,
    running: bool,
}

impl TreeSitterService {
    /// The service's name.
    pub closed spec fn spec_name(&self) -> Seq<char> {
        self.name@
    }

    /// The service's version.
    pub closed spec fn spec_version(&self) -> Seq<char> {
        self.version@
    }

    /// What the service does.
    pub closed spec fn spec_description(&self) -> Seq<char> {
        self.description@
    }

    /// Whether the service runs.
    pub closed spec fn spec_running(&self) -> bool {
        self.running
    }

    /// The service, stopped.
    pub fn new() -> (r: Self)
        ensures
            r.spec_name() == "gitai-treesitter-service"@,
            r.spec_version() == "1.0.0"@,
            r.spec_description() == "GitAI TreeSitter 代码分析服务"@,
            !r.spec_running(),
    {
        TreeSitterService {
            name: String::from_str("gitai-treesitter-service"),
            version: String::from_str("1.0.0"),
            description: String::from_str("GitAI TreeSitter 代码分析服务"),
            running: false,
        }
    }

    /// Whether the service runs.
    pub fn is_running(&self) -> (r: bool)
        ensures
            r == self.spec_running(),
    {
        self.running
    }
}

impl McpService for TreeSitterService {
    fn name(&self) -> (r: &str)
        ensures
            r@ == self.spec_name(),
    {
        self.name.as_str()
    }

    fn version(&self) -> (r: &str)
        ensures
            r@ == self.spec_version(),
    {
        self.version.as_str()
    }

    fn description(&self) -> (r: &str)
        ensures
            r@ == self.spec_description(),
    {
        self.description.as_str()
    }

    fn start_sync(&mut self) -> (r: Result<(), ServiceError>)
        ensures
            r is Ok,
            final(self).spec_running(),
            final(self).spec_name() == old(self).spec_name(),
            final(self).spec_version() == old(self).spec_version(),
    {
        self.running = true;
        Ok(())
    }

    fn stop_sync(&mut self) -> (r: Result<(), ServiceError>)
        ensures
            r is Ok,
            !final(self).spec_running(),
            final(self).spec_name() == old(self).spec_name(),
            final(self).spec_version() == old(self).spec_version(),
    {
        self.running = false;
        Ok(())
    }

    fn health_check_sync(&self) -> (r: Result<bool, ServiceError>)
        ensures
            r matches Ok(b) && b == self.spec_running(),
    {
        Ok(self.running)
    }

    fn get_handler_info(&self) -> (r: String)
        ensures
            r@ == "TreeSitterHandler for service: "@ + self.spec_name(),
    {
        let mut out = String::from_str("TreeSitterHandler for service: ");
        out.append(self.name.as_str());
        out
    }
}

/// A request to analyze code.
pub struct AnalyzeCodeRequest {
    /// The code.
    pub content: String,
    /// Its language.
    pub language: String,
    /// What to look at.
    pub focus_areas: Option<Vec<String>>,
}

/// The result of analyzing code.
pub struct AnalyzeCodeResponse {
    /// Summary of the analysis.
    pub analysis: String,
    /// Syntax tree, as text.
    pub syntax_tree: Option<String>,
    /// Structure, as text.
    pub structure: Option<String>,
    /// Complexity, as text.
    pub complexity: Option<String>,
}

/// A request to parse a diff.
pub struct ParseDiffRequest {
    /// The diff, as `git diff` prints it.
    pub diff: String,
    /// Lines of context.
    pub context_lines: Option<u32>,
}

/// The result of parsing a diff.
pub struct ParseDiffResponse {
    /// Summary of the changes.
    pub summary: String,
    /// Files changed.
    pub affected_files: Vec<String>,
}

/// A request to detect a language, from a path or else from content.
pub struct DetectLanguageRequest {
    /// Path of the file.
    pub file_path: Option<String>,
    /// Content of the file.
    pub content: Option<String>,
}

/// A detected language and what the analysis supports for it.
pub struct LanguageDetection {
    /// The language, if one was recognized.
    pub language: Option<String>,
    /// The analyses available for it.
    pub features: Vec<String>,
}

/// The tools the Tree-sitter handler offers.
#[derive(Debug, Clone, Copy, PartialEq, Eq, Structural)]
pub enum TreeSitterTool {
    /// `analyze_code`.
    AnalyzeCode,
    /// `parse_diff`.
    ParseDiff,
    /// `detect_language`.
    DetectLanguage,
    /// `get_supported_languages`.
    GetSupportedLanguages,
}

/// The last piece of `pieces` that is neither empty nor `.`.
pub open spec fn last_name_piece(pieces: Seq<Seq<char>>) -> Option<Seq<char>>
    decreases pieces.len(),
{
    if pieces.len() == 0 {
        None
    } else if pieces.last() == Seq::<char>::empty() || pieces.last() == seq!['.'] {
        last_name_piece(pieces.drop_last())
    } else {
        Some(pieces.last())
    }
}

/// The file name of a Unix path, as `Path::file_name` gives it: its last
/// component, none when that is `..` or there is no component.
pub open spec fn path_file_name(path: Seq<char>) -> Option<Seq<char>> {
    match last_name_piece(split_text(path, '/')) {
        Some(n) => if n == seq!['.', '.'] {
            None
        } else {
            Some(n)
        },
        None => None,
    }
}

/// The extension of a Unix path, as `Path::extension` gives it: what follows the
/// last `.` of the file name, unless that `.` starts the name.
pub open spec fn path_extension(path: Seq<char>) -> Option<Seq<char>> {
    match path_file_name(path) {
        Some(n) => if last_index_of(n, '.') > 0 {
            Some(n.subrange(last_index_of(n, '.') + 1, n.len() as int))
        } else {
            None
        },
        None => None,
    }
}

/// The file name of a Unix path (see `path_file_name`).
pub fn file_name_of(file_path: &str) -> (r: Option<String>)
    ensures
        match path_file_name(file_path@) {
            Some(n) => r matches Some(x) && x@ == n,
            None => r is None,
        },
{
    let pieces = split_str(file_path, '/');
    proof {
        lemma_split_nonempty(file_path@, '/');
    }
    let ghost pv = texts(pieces@);
    let mut k: usize = pieces.len();
    assert(pv.take(k as int) =~= pv);
    while k > 0
        invariant
            k <= pieces.len(),
            pv == texts(pieces@),
            pv == split_text(file_path@, '/'),
            last_name_piece(pv) == last_name_piece(pv.take(k as int)),
        decreases k,
    {
        let piece = &pieces[k - 1];
        proof {
            reveal_strlit("");
            reveal_strlit(".");
            reveal_strlit("..");
        }
        assert(pv.take(k as int).drop_last() =~= pv.take(k - 1));
        assert(pv.take(k as int).last() == piece@);
        let is_empty = same_text(piece.as_str(), "");
        let is_dot = same_text(piece.as_str(), ".");
        proof {
            assert(""@ =~= Seq::<char>::empty());
            assert("."@ =~= seq!['.']);
            assert(".."@ =~= seq!['.', '.']);
            if is_empty {
                assert(piece@ =~= Seq::<char>::empty());
            }
            if is_dot {
                assert(piece@ =~= seq!['.']);
            }
            if !is_empty {
                assert(piece@ != Seq::<char>::empty());
            }
            if !is_dot {
                assert(piece@ != seq!['.']);
            }
        }
        if !(is_empty || is_dot) {
            if same_text(piece.as_str(), "..") {
                assert(piece@ =~= seq!['.', '.']);
                return None;
            }
            assert(piece@ != seq!['.', '.']);
            return Some(String::from_str(piece.as_str()));
        }
        k = k - 1;
    }
    assert(pv.take(0) =~= Seq::<Seq<char>>::empty());
    None
}

/// The language of a file extension.
pub open spec fn language_of_extension(ext: Seq<char>) -> Option<Seq<char>> {
    if ext == "rs"@ {
        Some("rust"@)
    } else if ext == "py"@ {
        Some("python"@)
    } else if ext == "js"@ {
        Some("javascript"@)
    } else if ext == "ts"@ {
        Some("typescript"@)
    } else if ext == "java"@ {
        Some("java"@)
    } else if ext == "c"@ {
        Some("c"@)
    } else if ext == "cpp"@ || ext == "cc"@ || ext == "cxx"@ {
        Some("cpp"@)
    } else if ext == "go"@ {
        Some("go"@)
    } else if ext == "json"@ {
        Some("json"@)
    } else if ext == "yml"@ || ext == "yaml"@ {
        Some("yaml"@)
    } else if ext == "md"@ {
        Some("markdown"@)
    } else {
        None
    }
}

/// The language that code text suggests, by the first matching clue.
pub open spec fn language_of_content(c: Seq<char>) -> Option<Seq<char>> {
    if has_infix(c, "fn main()"@) || has_infix(c, "use std::"@) {
        Some("rust"@)
    } else if has_infix(c, "def "@) || has_infix(c, "import "@) {
        Some("python"@)
    } else if has_infix(c, "function "@) || has_infix(c, "const "@) {
        Some("javascript"@)
    } else if has_infix(c, "interface "@) || has_infix(c, "type "@) {
        Some("typescript"@)
    } else if has_infix(c, "public class "@) || has_infix(c, "package "@) {
        Some("java"@)
    } else if has_infix(c, "package main"@) || has_infix(c, "func main"@) {
        Some("go"@)
    } else {
        None
    }
}

/// The analyses available for a language.
pub open spec fn language_features(language: Seq<char>) -> Seq<Seq<char>> {
    if language == "rust"@ {
        seq![
            "syntax_highlighting"@,
            "structure_analysis"@,
            "complexity_analysis"@,
            "dependency_analysis"@,
        ]
    } else if language == "python"@ {
        seq!["syntax_highlighting"@, "structure_analysis"@, "complexity_analysis"@]
    } else if language == "javascript"@ || language == "typescript"@ {
        seq!["syntax_highlighting"@, "structure_analysis"@, "complexity_analysis"@, "import_analysis"@]
    } else {
        seq!["syntax_highlighting"@, "structure_analysis"@]
    }
}

/// The languages the analysis supports.
pub open spec fn supported_languages() -> Seq<Seq<char>> {
    seq![
        "rust"@,
        "python"@,
        "javascript"@,
        "typescript"@,
        "java"@,
        "c"@,
        "cpp"@,
        "go"@,
        "json"@,
        "yaml"@,
        "markdown"@,
    ]
}

/// Every language the service detects is one it lists as supported, and it
/// lists each supported language once.
pub proof fn lemma_detected_languages_supported(ext: Seq<char>, content: Seq<char>)
    ensures
        language_of_extension(ext) matches Some(l) ==> supported_languages().contains(l),
        language_of_content(content) matches Some(l) ==> supported_languages().contains(l),
        supported_languages().no_duplicates(),
{
    let s = supported_languages();
    reveal_strlit("rust");
    reveal_strlit("python");
    reveal_strlit("javascript");
    reveal_strlit("typescript");
    reveal_strlit("java");
    reveal_strlit("c");
    reveal_strlit("cpp");
    reveal_strlit("go");
    reveal_strlit("json");
    reveal_strlit("yaml");
    reveal_strlit("markdown");
    assert(s[0] == "rust"@ && s[1] == "python"@ && s[2] == "javascript"@ && s[3] == "typescript"@);
    assert(s[4] == "java"@ && s[5] == "c"@ && s[6] == "cpp"@ && s[7] == "go"@);
    assert(s[8] == "json"@ && s[9] == "yaml"@ && s[10] == "markdown"@);
    assert forall|i: int, j: int| 0 <= i < s.len() && 0 <= j < s.len() && i != j implies s[i] != s[j] by {
        if s[i].len() == s[j].len() {
            assert(s[i][0] != s[j][0] || s[i][1] != s[j][1]);
        }
    }
}

/// The tool named `name`, if any.
pub open spec fn tool_named(name: Seq<char>) -> Option<TreeSitterTool> {
    if name == "analyze_code"@ {
        Some(TreeSitterTool::AnalyzeCode)
    } else if name == "parse_diff"@ {
        Some(TreeSitterTool::ParseDiff)
    } else if name == "detect_language"@ {
        Some(TreeSitterTool::DetectLanguage)
    } else if name == "get_supported_languages"@ {
        Some(TreeSitterTool::GetSupportedLanguages)
    } else {
        None
    }
}

/// The prefix of the URIs of query resources.
pub open spec fn queries_prefix() -> Seq<char> {
    "treesitter://queries/"@
}

fn owned(s: &str) -> (r: String)
    ensures
        r@ == s@,
{
    String::from_str(s)
}

fn string_list(items: &[&str]) -> (r: Vec<String>)
    ensures
        r.len() == items@.len(),
        forall|j: int| 0 <= j < items@.len() ==> #[trigger] r@[j]@ == items@[j]@,
{
    let mut out: Vec<String> = Vec::new();
    let mut i: usize = 0;
    while i < items.len()
        invariant
            i <= items.len(),
            out.len() == i,
            forall|j: int| 0 <= j < i ==> #[trigger] out@[j]@ == items@[j]@,
        decreases items.len() - i,
    {
        out.push(owned(items[i]));
        i = i + 1;
    }
    out
}

/// The handler of the Tree-sitter service.
pub struct TreeSitterHandler {
    service: TreeSitterService,
}

impl TreeSitterHandler {
    /// The service handled.
    pub closed spec fn spec_service(&self) -> TreeSitterService {
        self.service
    }

    /// A handler of `service`.
    pub fn new(service: TreeSitterService) -> (r: Self)
        ensures
            r.spec_service() == service,
    {
        TreeSitterHandler { service }
    }

    /// The extension of a Unix path.
    pub fn path_extension(file_path: &str) -> (r: Option<String>)
        ensures
            match path_extension(file_path@) {
                Some(e) => r matches Some(x) && x@ == e,
                None => r is None,
            },
    {
        match file_name_of(file_path) {
            Some(n) => {
                let name = chars_of(n.as_str());
                proof {
                    lemma_last_index_bounds(name@, '.');
                }
                match find_last(&name, '.') {
                    Some(d) => {
                        if d > 0 {
                            Some(string_from(&name, d + 1))
                        } else {
                            None
                        }
                    },
                    None => None,
                }
            },
            None => None,
        }
    }

    /// The language of a file, by its extension.
    pub fn detect_language_by_extension(&self, file_path: &str) -> (r: Option<String>)
        ensures
            match path_extension(file_path@) {
                Some(e) => match language_of_extension(e) {
                    Some(l) => r matches Some(x) && x@ == l,
                    None => r is None,
                },
                None => r is None,
            },
    {
        let ext = match Self::path_extension(file_path) {
            Some(e) => e,
            None => {
                return None;
            },
        };
        let e = ext.as_str();
        if same_text(e, "rs") {
            Some(owned("rust"))
        } else if same_text(e, "py") {
            Some(owned("python"))
        } else if same_text(e, "js") {
            Some(owned("javascript"))
        } else if same_text(e, "ts") {
            Some(owned("typescript"))
        } else if same_text(e, "java") {
            Some(owned("java"))
        } else if same_text(e, "c") {
            Some(owned("c"))
        } else if same_text(e, "cpp") || same_text(e, "cc") || same_text(e, "cxx") {
            Some(owned("cpp"))
        } else if same_text(e, "go") {
            Some(owned("go"))
        } else if same_text(e, "json") {
            Some(owned("json"))
        } else if same_text(e, "yml") || same_text(e, "yaml") {
            Some(owned("yaml"))
        } else if same_text(e, "md") {
            Some(owned("markdown"))
        } else {
            None
        }
    }

    /// The language that code suggests, by simple clues.
    pub fn detect_language_by_content(&self, content: &str) -> (r: Option<String>)
        ensures
            match language_of_content(content@) {
                Some(l) => r matches Some(x) && x@ == l,
                None => r is None,
            },
    {
        if str_contains(content, "fn main()") || str_contains(content, "use std::") {
            Some(owned("rust"))
        } else if str_contains(content, "def ") || str_contains(content, "import ") {
            Some(owned("python"))
        } else if str_contains(content, "function ") || str_contains(content, "const ") {
            Some(owned("javascript"))
        } else if str_contains(content, "interface ") || str_contains(content, "type ") {
            Some(owned("typescript"))
        } else if str_contains(content, "public class ") || str_contains(content, "package ") {
            Some(owned("java"))
        } else if str_contains(content, "package main") || str_contains(content, "func main") {
            Some(owned("go"))
        } else {
            None
        }
    }

    /// The analyses available for `language`.
    pub fn get_language_features(&self, language: &str) -> (r: Vec<String>)
        ensures
            texts(r@) == language_features(language@),
    {
        let r = if same_text(language, "rust") {
            string_list(
                &["syntax_highlighting", "structure_analysis", "complexity_analysis", "dependency_analysis"],
            )
        } else if same_text(language, "python") {
            string_list(&["syntax_highlighting", "structure_analysis", "complexity_analysis"])
        } else if same_text(language, "javascript") || same_text(language, "typescript") {
            string_list(
                &["syntax_highlighting", "structure_analysis", "complexity_analysis", "import_analysis"],
            )
        } else {
            string_list(&["syntax_highlighting", "structure_analysis"])
        };
        assert(texts(r@) =~= language_features(language@));
        r
    }

    /// The languages the analysis supports.
    pub fn get_supported_languages(&self) -> (r: Result<Vec<String>, ServiceError>)
        ensures
            r matches Ok(v) && texts(v@) == supported_languages(),
    {
        let r = string_list(
            &["rust", "python", "javascript", "typescript", "java", "c", "cpp", "go", "json", "yaml", "markdown"],
        );
        assert(texts(r@) =~= supported_languages());
        Ok(r)
    }

    /// The language of a file, by its path if given, else by its content; the
    /// analyses available for it.
    pub fn detect_language(&self, request: &DetectLanguageRequest) -> (r: Result<LanguageDetection, ServiceError>)
        ensures
            request.file_path is None && request.content is None ==> (r matches Err(
                ServiceError::InvalidParams(m),
            ) && m@ == "必须提供文件路径或内容"@),
            request.file_path matches Some(p) ==> (r matches Ok(d) && match path_extension(p@) {
                Some(e) => match language_of_extension(e) {
                    Some(l) => d.language matches Some(x) && x@ == l && texts(d.features@) == language_features(l),
                    None => d.language is None && d.features.len() == 0,
                },
                None => d.language is None && d.features.len() == 0,
            }),
            request.file_path is None ==> (request.content matches Some(c) ==> (r matches Ok(d) && match language_of_content(c@) {
                Some(l) => d.language matches Some(x) && x@ == l && texts(d.features@) == language_features(l),
                None => d.language is None && d.features.len() == 0,
            })),
    {
        let language = match &request.file_path {
            Some(p) => self.detect_language_by_extension(p.as_str()),
            None => match &request.content {
                Some(c) => self.detect_language_by_content(c.as_str()),
                None => {
                    return Err(ServiceError::invalid_params(owned("必须提供文件路径或内容")));
                },
            },
        };
        let features = match &language {
            Some(l) => self.get_language_features(l.as_str()),
            None => Vec::new(),
        };
        Ok(LanguageDetection { language, features })
    }

    /// Analyzes code; only a summary naming the language is produced yet.
    pub fn analyze_code(&self, request: &AnalyzeCodeRequest) -> (r: Result<AnalyzeCodeResponse, ServiceError>)
        ensures
            r matches Ok(a) && a.analysis@ == "代码分析完成，语言: "@ + request.language@ && (a.syntax_tree matches Some(
                t,
            ) && t@ == "语法树分析功能开发中"@) && (a.structure matches Some(t) && t@ == "结构分析功能开发中"@)
                && (a.complexity matches Some(t) && t@ == "复杂度分析功能开发中"@),
    {
        let mut analysis = owned("代码分析完成，语言: ");
        analysis.append(request.language.as_str());
        Ok(
            AnalyzeCodeResponse {
                analysis,
                syntax_tree: Some(owned("语法树分析功能开发中")),
                structure: Some(owned("结构分析功能开发中")),
                complexity: Some(owned("复杂度分析功能开发中")),
            },
        )
    }

    /// The tool named `name`.
    pub fn tool_for_name(name: &str) -> (r: Result<TreeSitterTool, ServiceError>)
        ensures
            match tool_named(name@) {
                Some(t) => r matches Ok(x) && x == t,
                None => r matches Err(ServiceError::MethodNotFound(m)) && m@ == name@,
            },
    {
        if same_text(name, "analyze_code") {
            Ok(TreeSitterTool::AnalyzeCode)
        } else if same_text(name, "parse_diff") {
            Ok(TreeSitterTool::ParseDiff)
        } else if same_text(name, "detect_language") {
            Ok(TreeSitterTool::DetectLanguage)
        } else if same_text(name, "get_supported_languages") {
            Ok(TreeSitterTool::GetSupportedLanguages)
        } else {
            Err(ServiceError::method_not_found(owned(name)))
        }
    }

    /// Reads a query resource: `treesitter://queries/<language>/<kind>`, where the
    /// kind is `highlights.scm` or `structure.scm`.
    pub fn read_resource(&self, uri: &str) -> (r: Result<String, ServiceError>)
        requires
            !(has_prefix(uri@, queries_prefix()) && split_text(uri@, '/').len() == 4),
        ensures
            !has_prefix(uri@, queries_prefix()) ==> (r matches Err(ServiceError::InvalidParams(m)) && m@
                == "不支持的资源 URI: "@ + uri@),
            has_prefix(uri@, queries_prefix()) && split_text(uri@, '/').len() < 4 ==> (r matches Err(
                ServiceError::InvalidParams(m),
            ) && m@ == "无效的资源 URI"@),
            has_prefix(uri@, queries_prefix()) && split_text(uri@, '/').len() > 4 ==> ({
                let language = split_text(uri@, '/')[3];
                let kind = split_text(uri@, '/')[4];
                &&& kind == "highlights.scm"@ ==> (r matches Ok(t) && t@ == "; 语言 "@ + language
                    + " 的高亮查询规则\n; 这里是查询内容..."@)
                &&& kind == "structure.scm"@ ==> (r matches Ok(t) && t@ == "; 语言 "@ + language
                    + " 的结构查询规则\n; 这里是查询内容..."@)
                &&& kind != "highlights.scm"@ && kind != "structure.scm"@ ==> (r matches Err(
                    ServiceError::InvalidParams(m),
                ) && m@ == "不支持的查询类型: "@ + kind)
            }),
    {
        if !str_starts_with(uri, "treesitter://queries/") {
            let mut m = owned("不支持的资源 URI: ");
            m.append(uri);
            return Err(ServiceError::invalid_params(m));
        }
        let parts = split_str(uri, '/');
        proof {
            reveal_strlit("highlights.scm");
            reveal_strlit("structure.scm");
        }
        if parts.len() >= 4 {
            assert(texts(parts@)[3] == parts@[3]@);
            assert(texts(parts@)[4] == parts@[4]@);
            let language = parts[3].as_str();
            let query_type = parts[4].as_str();
            if same_text(query_type, "highlights.scm") {
                let mut t = owned("; 语言 ");
                t.append(language);
                t.append(" 的高亮查询规则\n; 这里是查询内容...");
                Ok(t)
            } else if same_text(query_type, "structure.scm") {
                let mut t = owned("; 语言 ");
                t.append(language);
                t.append(" 的结构查询规则\n; 这里是查询内容...");
                Ok(t)
            } else {
                let mut m = owned("不支持的查询类型: ");
                m.append(query_type);
                Err(ServiceError::invalid_params(m))
            }
        } else {
            Err(ServiceError::invalid_params(owned("无效的资源 URI")))
        }
    }
}

} // verus!
