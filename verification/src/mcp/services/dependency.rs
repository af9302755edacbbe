use crate::mcp::services::treesitter::{file_name_of, path_extension, path_file_name, TreeSitterHandler};
use crate::key_sort::{is_key_order, key_order, key_texts, lemma_key_order_unique, positions};
use crate::review::analyzer::SupportedLanguage;
use crate::text::{
    ascii_lower_text, chars_of, has_infix, has_prefix, occurs_at, has_suffix, same_text, str_contains, str_ends_with,
    str_starts_with, str_to_ascii_lower, string_from, decimal_text, format_decimal,
};
use vstd::prelude::*;

verus! {

// Lower-casing below goes by ASCII: no other character lower-cases to a
// character of the names and suffixes compared against, so the outcome is
// that of `str::to_lowercase`.

/// Whether a file extension is one of a supported source language, ignoring case.
pub open spec fn code_extension(ext: Seq<char>) -> bool {
    let l = ascii_lower_text(ext);
    l == "rs"@ || l == "java"@ || l == "py"@ || l == "js"@ || l == "ts"@ || l == "go"@ || l == "c"@ || l == "cpp"@
        || l == "h"@ || l == "hpp"@
}

/// Whether a file extension is one of a supported source language.
pub fn is_supported_code_file(extension: &str) -> (r: bool)
    ensures
        r == code_extension(extension@),
{
    let l = str_to_ascii_lower(extension);
    let t = l.as_str();
    same_text(t, "rs") || same_text(t, "java") || same_text(t, "py") || same_text(t, "js") || same_text(t, "ts")
        || same_text(t, "go") || same_text(t, "c") || same_text(t, "cpp") || same_text(t, "h") || same_text(t, "hpp")
}

/// Whether a (lower-cased) file name is one of a test.
pub open spec fn test_file_name(l: Seq<char>) -> bool {
    has_suffix(l, "_test.rs"@) || has_suffix(l, "_tests.rs"@) || has_prefix(l, "test_"@) || has_suffix(
        l,
        "_test.go"@,
    ) || has_suffix(l, "_test.py"@) || has_suffix(l, "_test.js"@) || has_suffix(l, "_test.ts"@) || has_suffix(
        l,
        ".test.js"@,
    ) || has_suffix(l, ".test.ts"@) || has_suffix(l, ".spec.js"@) || has_suffix(l, ".spec.ts"@) || has_suffix(
        l,
        "_test.java"@,
    ) || l == "test.rs"@ || l == "tests.rs"@
}

/// Whether a path runs through a test directory.
pub open spec fn test_path(p: Seq<char>) -> bool {
    has_infix(p, "/tests/"@) || has_infix(p, "/test/"@) || has_infix(p, "/__tests__/"@) || has_infix(p, "/test_"@)
        || has_infix(p, "/tests_"@)
}

/// Whether a path is that of a test file: judged by its file name, ignoring
/// case, where it has one, else by the directories it runs through.
pub open spec fn test_file_path(p: Seq<char>) -> bool {
    match path_file_name(p) {
        Some(n) => test_file_name(ascii_lower_text(n)),
        None => test_path(p),
    }
}

/// Whether the file at `path` is a test (see `test_file_path`).
pub fn is_test_file(path: &str) -> (r: bool)
    ensures
        r == test_file_path(path@),
{
    match file_name_of(path) {
        Some(n) => {
            let l = str_to_ascii_lower(n.as_str());
            let t = l.as_str();
            str_ends_with(t, "_test.rs") || str_ends_with(t, "_tests.rs") || str_starts_with(t, "test_")
                || str_ends_with(t, "_test.go") || str_ends_with(t, "_test.py") || str_ends_with(t, "_test.js")
                || str_ends_with(t, "_test.ts") || str_ends_with(t, ".test.js") || str_ends_with(t, ".test.ts")
                || str_ends_with(t, ".spec.js") || str_ends_with(t, ".spec.ts") || str_ends_with(t, "_test.java")
                || same_text(t, "test.rs") || same_text(t, "tests.rs")
        },
        None => {
            str_contains(path, "/tests/") || str_contains(path, "/test/") || str_contains(path, "/__tests__/")
                || str_contains(path, "/test_") || str_contains(path, "/tests_")
        },
    }
}

/// Whether a (lower-cased) directory name is one of tests.
pub open spec fn test_dir_name(l: Seq<char>) -> bool {
    l == "tests"@ || l == "test"@ || l == "__tests__"@ || l == "test_data"@ || l == "testdata"@ || l == "testing"@
        || has_prefix(l, "test_"@) || has_prefix(l, "tests_"@) || has_suffix(l, "_test"@) || has_suffix(l, "_tests"@)
}

/// Whether a path is that of a test directory, by its last name, ignoring case.
pub open spec fn test_dir_path(p: Seq<char>) -> bool {
    match path_file_name(p) {
        Some(n) => test_dir_name(ascii_lower_text(n)),
        None => false,
    }
}

/// Whether the directory at `path` holds tests (see `test_dir_path`).
pub fn is_test_directory(path: &str) -> (r: bool)
    ensures
        r == test_dir_path(path@),
{
    match file_name_of(path) {
        Some(n) => {
            let l = str_to_ascii_lower(n.as_str());
            let t = l.as_str();
            same_text(t, "tests") || same_text(t, "test") || same_text(t, "__tests__") || same_text(t, "test_data")
                || same_text(t, "testdata") || same_text(t, "testing") || str_starts_with(t, "test_")
                || str_starts_with(t, "tests_") || str_ends_with(t, "_test") || str_ends_with(t, "_tests")
        },
        None => false,
    }
}

/// The language of a source-file extension, ignoring case.
pub open spec fn language_of_code_extension(ext: Seq<char>) -> Option<SupportedLanguage> {
    let l = ascii_lower_text(ext);
    if l == "rs"@ {
        Some(SupportedLanguage::Rust)
    } else if l == "java"@ {
        Some(SupportedLanguage::Java)
    } else if l == "py"@ {
        Some(SupportedLanguage::Python)
    } else if l == "js"@ {
        Some(SupportedLanguage::JavaScript)
    } else if l == "ts"@ {
        Some(SupportedLanguage::TypeScript)
    } else if l == "go"@ {
        Some(SupportedLanguage::Go)
    } else if l == "c"@ || l == "h"@ {
        Some(SupportedLanguage::C)
    } else if l == "cpp"@ || l == "hpp"@ {
        Some(SupportedLanguage::Cpp)
    } else {
        None
    }
}

/// Whether `r` is the language of the file at `path`, or the error for a path
/// without an extension or with one of no supported language.
pub open spec fn path_language(path: Seq<char>, r: Result<SupportedLanguage, String>) -> bool {
    match path_extension(path) {
        None => r matches Err(e) && e@ == "无法获取文件扩展名"@,
        Some(ext) => match language_of_code_extension(ext) {
            Some(lang) => r == Ok::<SupportedLanguage, String>(lang),
            None => r matches Err(e) && e@ == "不支持的文件扩展名: "@ + ext,
        },
    }
}

/// The language of the file at `path`, by its extension (see `path_language`).
pub fn infer_language_from_path(path: &str) -> (r: Result<SupportedLanguage, String>)
    ensures
        path_language(path@, r),
{
    let ext = match TreeSitterHandler::path_extension(path) {
        Some(e) => e,
        None => {
            return Err(String::from_str("无法获取文件扩展名"));
        },
    };
    let l = str_to_ascii_lower(ext.as_str());
    let t = l.as_str();
    if same_text(t, "rs") {
        Ok(SupportedLanguage::Rust)
    } else if same_text(t, "java") {
        Ok(SupportedLanguage::Java)
    } else if same_text(t, "py") {
        Ok(SupportedLanguage::Python)
    } else if same_text(t, "js") {
        Ok(SupportedLanguage::JavaScript)
    } else if same_text(t, "ts") {
        Ok(SupportedLanguage::TypeScript)
    } else if same_text(t, "go") {
        Ok(SupportedLanguage::Go)
    } else if same_text(t, "c") || same_text(t, "h") {
        Ok(SupportedLanguage::C)
    } else if same_text(t, "cpp") || same_text(t, "hpp") {
        Ok(SupportedLanguage::Cpp)
    } else {
        let mut e = String::from_str("不支持的文件扩展名: ");
        e.append(ext.as_str());
        Err(e)
    }
}

/// Where the last piece of `s` starts when it is split at `::` from left to
/// right, the scan being at `i` with the current piece starting at `start`.
pub open spec fn colon_piece_start(s: Seq<char>, i: int, start: int) -> int
    decreases s.len() - i,
{
    if i < 0 || i >= s.len() {
        start
    } else if i + 1 < s.len() && s[i] == ':' && s[i + 1] == ':' {
        colon_piece_start(s, i + 2, i + 2)
    } else {
        colon_piece_start(s, i + 1, start)
    }
}

/// What a node's identifier shows: its last piece after `::`, and of that the
/// part after the last `/`.
pub open spec fn node_display_name(id: Seq<char>) -> Seq<char> {
    let piece = id.skip(colon_piece_start(id, 0, 0));
    piece.skip(crate::text::last_index_of(piece, '/') + 1)
}

/// What a node's identifier shows (see `node_display_name`).
pub fn get_node_display_name(node_id: &str) -> (r: String)
    ensures
        r@ == node_display_name(node_id@),
{
    let cs = chars_of(node_id);
    let mut i: usize = 0;
    let mut start: usize = 0;
    while i < cs.len()
        invariant
            cs@ == node_id@,
            start <= i,
            i <= cs.len(),
            colon_piece_start(cs@, 0, 0) == colon_piece_start(cs@, i as int, start as int),
        decreases cs.len() - i,
    {
        if i + 1 < cs.len() && cs[i] == ':' && cs[i + 1] == ':' {
            i = i + 2;
            start = i;
        } else {
            i = i + 1;
        }
    }
    let piece = chars_of(string_from(&cs, start).as_str());
    assert(piece@ =~= cs@.skip(colon_piece_start(cs@, 0, 0)));
    proof {
        crate::text::lemma_last_index_bounds(piece@, '/');
    }
    match crate::text::find_last(&piece, '/') {
        Some(k) => string_from(&piece, k + 1),
        None => string_from(&piece, 0),
    }
}

/// What a node of a dependency graph stands for.
#[derive(Debug, Clone, Copy, PartialEq, Eq, Structural)]
pub enum NodeKind {
    /// A file.
    File,
    /// A function.
    Function,
    /// A class.
    Class,
    /// A module.
    Module,
}

/// What an edge of a dependency graph stands for.
#[derive(Debug, Clone, Copy, PartialEq, Eq, Structural)]
pub enum EdgeType {
    /// A call.
    Calls,
    /// An import.
    Imports,
    /// An export.
    Exports,
    /// Inheritance.
    Inherits,
    /// An implementation.
    Implements,
    /// A use.
    Uses,
    /// A reference.
    References,
    /// Containment.
    Contains,
    /// Any other dependency.
    DependsOn,
}

/// A node of a dependency graph.
pub struct GraphNode {
    /// Its identifier.
    pub id: String,
    /// What it stands for.
    pub kind: NodeKind,
    /// The name of the function, class or module, or the path of the file.
    pub name: String,
}

/// An edge of a dependency graph.
pub struct GraphEdge {
    /// Identifier of the node it leaves.
    pub from: String,
    /// Identifier of the node it reaches.
    pub to: String,
    /// What it stands for.
    pub edge_type: EdgeType,
    /// Notes on it.
    pub notes: Option<String>,
}

/// A dependency graph: its nodes, in the order they are listed, and its edges.
pub struct DependencyGraph {
    /// The nodes.
    pub nodes: Vec<GraphNode>,
    /// The edges.
    pub edges: Vec<GraphEdge>,
}

/// What opens the shape of a node in Mermaid.
pub open spec fn shape_open(k: NodeKind) -> Seq<char> {
    match k {
        NodeKind::File => "["@,
        NodeKind::Function => "("@,
        NodeKind::Class => "{{"@,
        NodeKind::Module => "[/"@,
    }
}

/// What closes the shape of a node in Mermaid.
pub open spec fn shape_close(k: NodeKind) -> Seq<char> {
    match k {
        NodeKind::File => "]"@,
        NodeKind::Function => ")"@,
        NodeKind::Class => "}}"@,
        NodeKind::Module => "/]"@,
    }
}

/// The Mermaid arrow of an edge.
pub open spec fn edge_arrow(t: EdgeType) -> Seq<char> {
    match t {
        EdgeType::Calls | EdgeType::Uses | EdgeType::References => "-.->"@,
        EdgeType::Inherits | EdgeType::Implements => "==>"@,
        _ => "-->"@,
    }
}

/// The Mermaid class of a node.
pub open spec fn node_class(k: NodeKind) -> Seq<char> {
    match k {
        NodeKind::File => "fileNode"@,
        NodeKind::Function => "functionNode"@,
        NodeKind::Class => "classNode"@,
        NodeKind::Module => "moduleNode"@,
    }
}

fn get_mermaid_node_style(k: NodeKind) -> (r: (&'static str, &'static str))
    ensures
        r.0@ == shape_open(k),
        r.1@ == shape_close(k),
{
    match k {
        NodeKind::File => ("[", "]"),
        NodeKind::Function => ("(", ")"),
        NodeKind::Class => ("{{", "}}"),
        NodeKind::Module => ("[/", "/]"),
    }
}

fn get_mermaid_edge_style(t: EdgeType) -> (r: &'static str)
    ensures
        r@ == edge_arrow(t),
{
    match t {
        EdgeType::Calls | EdgeType::Uses | EdgeType::References => "-.->",
        EdgeType::Inherits | EdgeType::Implements => "==>",
        _ => "-->",
    }
}

fn class_of(k: NodeKind) -> (r: &'static str)
    ensures
        r@ == node_class(k),
{
    match k {
        NodeKind::File => "fileNode",
        NodeKind::Function => "functionNode",
        NodeKind::Class => "classNode",
        NodeKind::Module => "moduleNode",
    }
}

/// The Mermaid name of the node at position `k`.
pub open spec fn mermaid_id(k: nat) -> Seq<char> {
    "node"@ + decimal_text(k)
}

/// The Mermaid line that defines node `n` at position `k`.
pub open spec fn node_line(k: nat, n: GraphNode) -> Seq<char> {
    "    "@ + mermaid_id(k) + shape_open(n.kind) + node_display_name(n.id@) + shape_close(n.kind) + "\n"@
}

/// The lines that define the first `k` nodes.
pub open spec fn node_lines(ns: Seq<GraphNode>, k: int) -> Seq<char>
    decreases k,
{
    if k <= 0 {
        Seq::empty()
    } else {
        node_lines(ns, k - 1) + node_line((k - 1) as nat, ns[k - 1])
    }
}

/// Position of the first node with identifier `id`.
pub open spec fn node_position(ns: Seq<GraphNode>, id: Seq<char>) -> Option<nat>
    decreases ns.len(),
{
    if ns.len() == 0 {
        None
    } else {
        match node_position(ns.drop_last(), id) {
            Some(p) => Some(p),
            None => if ns.last().id@ == id {
                Some((ns.len() - 1) as nat)
            } else {
                None
            },
        }
    }
}

/// The label of an edge: its notes between bars, where there are any.
pub open spec fn edge_label(notes: Option<String>) -> Seq<char> {
    match notes {
        Some(n) => if n@.len() > 0 {
            "|"@ + n@ + "|"@
        } else {
            Seq::empty()
        },
        None => Seq::empty(),
    }
}

/// The Mermaid line of an edge; none where an end is not a node.
pub open spec fn edge_line(ns: Seq<GraphNode>, e: GraphEdge) -> Seq<char> {
    match (node_position(ns, e.from@), node_position(ns, e.to@)) {
        (Some(a), Some(b)) => "    "@ + mermaid_id(a) + edge_arrow(e.edge_type) + edge_label(e.notes) + " "@
            + mermaid_id(b) + "\n"@,
        _ => Seq::empty(),
    }
}

/// The lines of the first `k` edges.
pub open spec fn edge_lines(ns: Seq<GraphNode>, es: Seq<GraphEdge>, k: int) -> Seq<char>
    decreases k,
{
    if k <= 0 {
        Seq::empty()
    } else {
        edge_lines(ns, es, k - 1) + edge_line(ns, es[k - 1])
    }
}

/// The lines that give the first `k` nodes their classes.
pub open spec fn class_lines(ns: Seq<GraphNode>, k: int) -> Seq<char>
    decreases k,
{
    if k <= 0 {
        Seq::empty()
    } else {
        class_lines(ns, k - 1) + "    class "@ + mermaid_id((k - 1) as nat) + " "@ + node_class(ns[k - 1].kind)
            + "\n"@
    }
}

/// The class definitions of a Mermaid dependency chart.
pub open spec fn mermaid_styles() -> Seq<char> {
    "\n    %% Styles\n    classDef fileNode fill:#e1f5fe,stroke:#01579b,stroke-width:2px\n    classDef functionNode fill:#f3e5f5,stroke:#4a148c,stroke-width:2px\n    classDef classNode fill:#fff3e0,stroke:#e65100,stroke-width:2px\n    classDef moduleNode fill:#e8f5e8,stroke:#2e7d32,stroke-width:2px\n"@
}

/// The dependency graph as a Mermaid flowchart: a header, one line per node
/// (named by position, shaped by kind, labelled by its display name), one line
/// per edge whose ends are nodes, the class definitions and each node's class.
pub open spec fn mermaid_text(g: DependencyGraph) -> Seq<char> {
    "flowchart TD\n    %% Generated by GitAI Dependency Service\n\n"@ + node_lines(g.nodes@, g.nodes.len() as int)
        + "\n"@ + edge_lines(g.nodes@, g.edges@, g.edges.len() as int) + mermaid_styles() + class_lines(
        g.nodes@,
        g.nodes.len() as int,
    )
}

fn position_of(nodes: &Vec<GraphNode>, id: &str) -> (r: Option<usize>)
    ensures
        match r {
            Some(p) => node_position(nodes@, id@) == Some(p as nat),
            None => node_position(nodes@, id@) is None,
        },
{
    let mut i: usize = 0;
    while i < nodes.len()
        invariant
            i <= nodes.len(),
            node_position(nodes@.take(i as int), id@) is None,
        decreases nodes.len() - i,
    {
        assert(nodes@.take(i + 1).drop_last() =~= nodes@.take(i as int));
        if same_text(nodes[i].id.as_str(), id) {
            proof {
                lemma_node_position_prefix(nodes@, id@, i + 1);
            }
            return Some(i);
        }
        i = i + 1;
    }
    assert(nodes@.take(i as int) =~= nodes@);
    None
}

proof fn lemma_node_position_prefix(ns: Seq<GraphNode>, id: Seq<char>, k: int)
    requires
        0 <= k <= ns.len(),
        node_position(ns.take(k), id) is Some,
    ensures
        node_position(ns, id) == node_position(ns.take(k), id),
    decreases ns.len() - k,
{
    if k < ns.len() {
        assert(ns.take(k + 1).drop_last() =~= ns.take(k));
        lemma_node_position_prefix(ns, id, k + 1);
    } else {
        assert(ns.take(k) =~= ns);
    }
}

fn append_edge_line(m: &mut String, nodes: &Vec<GraphNode>, e: &GraphEdge)
    ensures
        final(m)@ == old(m)@ + edge_line(nodes@, *e),
{
    let ghost before = m@;
    match (position_of(nodes, e.from.as_str()), position_of(nodes, e.to.as_str())) {
        (Some(a), Some(b)) => {
            m.append("    ");
            m.append("node");
            m.append(format_decimal(a as u64).as_str());
            m.append(get_mermaid_edge_style(e.edge_type));
            match &e.notes {
                Some(n) => {
                    if n.unicode_len() > 0 {
                        m.append("|");
                        m.append(n.as_str());
                        m.append("|");
                    }
                },
                None => {},
            }
            m.append(" ");
            m.append("node");
            m.append(format_decimal(b as u64).as_str());
            m.append("\n");
        },
        _ => {},
    }
    assert(m@ =~= before + edge_line(nodes@, *e));
}

proof fn lemma_edge_line_inside(ns: Seq<GraphNode>, es: Seq<GraphEdge>, j: int, k: int)
    requires
        0 <= j < k <= es.len(),
    ensures
        edge_lines(ns, es, j).len() + edge_line(ns, es[j]).len() <= edge_lines(ns, es, k).len(),
        edge_lines(ns, es, k).subrange(
            edge_lines(ns, es, j).len() as int,
            (edge_lines(ns, es, j).len() + edge_line(ns, es[j]).len()) as int,
        ) == edge_line(ns, es[j]),
    decreases k,
{
    let l = edge_lines(ns, es, j).len() as int;
    let w = edge_line(ns, es[j]);
    if k == j + 1 {
        assert(edge_lines(ns, es, k).subrange(l, l + w.len()) =~= w);
    } else {
        lemma_edge_line_inside(ns, es, j, k - 1);
        let prev = edge_lines(ns, es, k - 1);
        assert(edge_lines(ns, es, k).subrange(l, l + w.len()) =~= prev.subrange(l, l + w.len()));
    }
}

/// Every edge whose two ends are nodes is drawn: the chart holds its line, from
/// the Mermaid name of its source through its arrow and label to that of its
/// target, the last edge of the graph included.
pub proof fn lemma_mermaid_draws_every_edge(g: DependencyGraph, j: int)
    requires
        0 <= j < g.edges.len(),
        node_position(g.nodes@, g.edges@[j].from@) is Some,
        node_position(g.nodes@, g.edges@[j].to@) is Some,
    ensures
        has_infix(
            mermaid_text(g),
            "    "@ + mermaid_id(node_position(g.nodes@, g.edges@[j].from@).unwrap()) + edge_arrow(
                g.edges@[j].edge_type,
            ) + edge_label(g.edges@[j].notes) + " "@ + mermaid_id(node_position(g.nodes@, g.edges@[j].to@).unwrap())
                + "\n"@,
        ),
{
    let ns = g.nodes@;
    let es = g.edges@;
    let e = es[j];
    let line = "    "@ + mermaid_id(node_position(ns, e.from@).unwrap()) + edge_arrow(e.edge_type) + edge_label(e.notes)
        + " "@ + mermaid_id(node_position(ns, e.to@).unwrap()) + "\n"@;
    assert(edge_line(ns, e) == line);
    lemma_edge_line_inside(ns, es, j, es.len() as int);
    let head = "flowchart TD\n    %% Generated by GitAI Dependency Service\n\n"@ + node_lines(ns, g.nodes.len() as int)
        + "\n"@;
    let all = edge_lines(ns, es, es.len() as int);
    let tail = mermaid_styles() + class_lines(ns, g.nodes.len() as int);
    let t = mermaid_text(g);
    assert(t =~= head + all + tail);
    let at: int = (head.len() + edge_lines(ns, es, j).len()) as int;
    assert(t.subrange(at, at + line.len()) =~= all.subrange(
        edge_lines(ns, es, j).len() as int,
        (edge_lines(ns, es, j).len() + line.len()) as int,
    ));
    assert(occurs_at(t, line, at));
}

/// The dependency graph as a Mermaid flowchart (see `mermaid_text`).
pub fn convert_to_mermaid(graph: &DependencyGraph) -> (r: String)
    ensures
        r@ == mermaid_text(*graph),
{
    let mut m = String::from_str("flowchart TD\n    %% Generated by GitAI Dependency Service\n\n");
    let ghost head = m@;
    let mut k: usize = 0;
    while k < graph.nodes.len()
        invariant
            k <= graph.nodes.len(),
            m@ == head + node_lines(graph.nodes@, k as int),
        decreases graph.nodes.len() - k,
    {
        let node = &graph.nodes[k];
        let (open, close) = get_mermaid_node_style(node.kind);
        m.append("    ");
        m.append("node");
        m.append(format_decimal(k as u64).as_str());
        m.append(open);
        m.append(get_node_display_name(node.id.as_str()).as_str());
        m.append(close);
        m.append("\n");
        k = k + 1;
        assert(m@ =~= head + node_lines(graph.nodes@, k as int));
    }
    m.append("\n");
    let ghost mid = m@;
    let mut j: usize = 0;
    while j < graph.edges.len()
        invariant
            j <= graph.edges.len(),
            m@ == mid + edge_lines(graph.nodes@, graph.edges@, j as int),
        decreases graph.edges.len() - j,
    {
        let e = &graph.edges[j];
        let ghost before = m@;
        append_edge_line(&mut m, &graph.nodes, e);
        assert(m@ =~= before + edge_line(graph.nodes@, *e));
        j = j + 1;
        assert(m@ =~= mid + edge_lines(graph.nodes@, graph.edges@, j as int));
    }
    m.append(
        "\n    %% Styles\n    classDef fileNode fill:#e1f5fe,stroke:#01579b,stroke-width:2px\n    classDef functionNode fill:#f3e5f5,stroke:#4a148c,stroke-width:2px\n    classDef classNode fill:#fff3e0,stroke:#e65100,stroke-width:2px\n    classDef moduleNode fill:#e8f5e8,stroke:#2e7d32,stroke-width:2px\n",
    );
    let ghost tail = m@;
    let mut k: usize = 0;
    while k < graph.nodes.len()
        invariant
            k <= graph.nodes.len(),
            m@ == tail + class_lines(graph.nodes@, k as int),
        decreases graph.nodes.len() - k,
    {
        m.append("    class ");
        m.append("node");
        m.append(format_decimal(k as u64).as_str());
        m.append(" ");
        m.append(class_of(graph.nodes[k].kind));
        m.append("\n");
        k = k + 1;
        assert(m@ =~= tail + class_lines(graph.nodes@, k as int));
    }
    assert(m@ =~= mermaid_text(*graph));
    m
}

/// A form a dependency graph can be produced in.
#[derive(Debug, Clone, Copy, PartialEq, Eq, Structural)]
pub enum GraphFormat {
    /// The graph as JSON data.
    Json,
    /// Graphviz DOT.
    Dot,
    /// SVG, drawn by Graphviz.
    Svg,
    /// A Mermaid flowchart.
    Mermaid,
    /// Plain text.
    Ascii,
}

/// The form a format name asks for, ignoring case.
pub open spec fn graph_format_named(name: Seq<char>) -> Option<GraphFormat> {
    let l = ascii_lower_text(name);
    if l == "json"@ {
        Some(GraphFormat::Json)
    } else if l == "dot"@ {
        Some(GraphFormat::Dot)
    } else if l == "svg"@ {
        Some(GraphFormat::Svg)
    } else if l == "mermaid"@ {
        Some(GraphFormat::Mermaid)
    } else if l == "ascii"@ {
        Some(GraphFormat::Ascii)
    } else {
        None
    }
}

/// The format asked for: the request's, else the configured default, else
/// JSON; where its name is no known format, the error naming it.
pub open spec fn chosen_format(requested: Option<Seq<char>>, configured: Option<Seq<char>>, r: Result<GraphFormat, String>) -> bool {
    let name = match requested {
        Some(f) => f,
        None => match configured {
            Some(d) => d,
            None => "json"@,
        },
    };
    match graph_format_named(name) {
        Some(g) => r == Ok::<GraphFormat, String>(g),
        None => r matches Err(e) && e@ == "不支持的格式: "@ + name,
    }
}

/// The format a dependency graph is produced in (see `chosen_format`).
pub fn graph_output_format(requested: Option<&str>, configured: Option<&str>) -> (r: Result<GraphFormat, String>)
    ensures
        chosen_format(
            match requested {
                Some(f) => Some(f@),
                None => None,
            },
            match configured {
                Some(d) => Some(d@),
                None => None,
            },
            r,
        ),
{
    let name: &str = match requested {
        Some(f) => f,
        None => match configured {
            Some(d) => d,
            None => "json",
        },
    };
    let l = str_to_ascii_lower(name);
    let t = l.as_str();
    if same_text(t, "json") {
        Ok(GraphFormat::Json)
    } else if same_text(t, "dot") {
        Ok(GraphFormat::Dot)
    } else if same_text(t, "svg") {
        Ok(GraphFormat::Svg)
    } else if same_text(t, "mermaid") {
        Ok(GraphFormat::Mermaid)
    } else if same_text(t, "ascii") {
        Ok(GraphFormat::Ascii)
    } else {
        let mut e = String::from_str("不支持的格式: ");
        e.append(name);
        Err(e)
    }
}

/// The message that reports a graph produced in a format; for SVG, the one
/// given when only DOT could be produced.
pub open spec fn graph_output_message(f: GraphFormat) -> Seq<char> {
    match f {
        GraphFormat::Json => "依赖图生成成功"@,
        GraphFormat::Dot => "DOT 格式依赖图生成成功"@,
        GraphFormat::Svg => "已生成 DOT 内容。请使用 Graphviz 将其转换为 SVG（例如：dot -Tsvg -o out.svg）"@,
        GraphFormat::Mermaid => "Mermaid 格式依赖图生成成功"@,
        GraphFormat::Ascii => "ASCII 文本依赖图生成成功"@,
    }
}

/// The message that reports a graph produced in a format (see `graph_output_message`).
pub fn output_message(f: GraphFormat) -> (r: &'static str)
    ensures
        r@ == graph_output_message(f),
{
    match f {
        GraphFormat::Json => "依赖图生成成功",
        GraphFormat::Dot => "DOT 格式依赖图生成成功",
        GraphFormat::Svg => "已生成 DOT 内容。请使用 Graphviz 将其转换为 SVG（例如：dot -Tsvg -o out.svg）",
        GraphFormat::Mermaid => "Mermaid 格式依赖图生成成功",
        GraphFormat::Ascii => "ASCII 文本依赖图生成成功",
    }
}

/// The word the ASCII listing gives an edge type.
pub open spec fn edge_kind_word(t: EdgeType) -> Seq<char> {
    match t {
        EdgeType::Calls => "CALLS"@,
        EdgeType::Imports => "IMPORTS"@,
        EdgeType::Exports => "EXPORTS"@,
        EdgeType::Inherits => "INHERITS"@,
        EdgeType::Implements => "IMPLEMENTS"@,
        EdgeType::Uses => "USES"@,
        EdgeType::References => "REFS"@,
        EdgeType::Contains => "CONTAINS"@,
        EdgeType::DependsOn => "DEPENDS"@,
    }
}

fn edge_kind_word_of(t: EdgeType) -> (r: &'static str)
    ensures
        r@ == edge_kind_word(t),
{
    match t {
        EdgeType::Calls => "CALLS",
        EdgeType::Imports => "IMPORTS",
        EdgeType::Exports => "EXPORTS",
        EdgeType::Inherits => "INHERITS",
        EdgeType::Implements => "IMPLEMENTS",
        EdgeType::Uses => "USES",
        EdgeType::References => "REFS",
        EdgeType::Contains => "CONTAINS",
        EdgeType::DependsOn => "DEPENDS",
    }
}

/// How the ASCII listing describes a node.
pub open spec fn ascii_label(n: GraphNode) -> Seq<char> {
    match n.kind {
        NodeKind::Function => "fn "@ + n.name@ + "()"@,
        NodeKind::Class => "class "@ + n.name@,
        NodeKind::Module => "mod "@ + n.name@,
        NodeKind::File => "file "@ + n.name@,
    }
}

/// The nodes keyed by identifier.
pub open spec fn node_keys(ns: Seq<GraphNode>) -> Seq<(Seq<char>, Seq<char>)> {
    ns.map_values(|n: GraphNode| (n.id@, Seq::<char>::empty()))
}

/// The edges keyed by the nodes they leave and reach.
pub open spec fn edge_keys(es: Seq<GraphEdge>) -> Seq<(Seq<char>, Seq<char>)> {
    es.map_values(|e: GraphEdge| (e.from@, e.to@))
}

/// The positions of the nodes in the order of their identifiers.
pub open spec fn node_order(ns: Seq<GraphNode>) -> Seq<usize> {
    choose|o: Seq<usize>| is_key_order(node_keys(ns), o)
}

/// The positions of the edges in the order of the nodes they leave, then of
/// those they reach, equal ones in the order they come.
pub open spec fn edge_order(es: Seq<GraphEdge>) -> Seq<usize> {
    choose|o: Seq<usize>| is_key_order(edge_keys(es), o)
}

/// Where, among the first `k` nodes of the order `o`, the first with
/// identifier `id` stands.
pub open spec fn first_listed(ns: Seq<GraphNode>, o: Seq<usize>, id: Seq<char>, k: int) -> Option<int>
    decreases k,
{
    if k <= 0 {
        None
    } else {
        match first_listed(ns, o, id, k - 1) {
            Some(p) => Some(p),
            None => if ns[o[k - 1] as int].id@ == id {
                Some(k - 1)
            } else {
                None
            },
        }
    }
}

/// The short name of a node in the listing, `N` and its place from 1; an
/// identifier of no node stays as it is.
pub open spec fn short_id(ns: Seq<GraphNode>, o: Seq<usize>, id: Seq<char>) -> Seq<char> {
    match first_listed(ns, o, id, o.len() as int) {
        Some(p) => "N"@ + decimal_text((p + 1) as nat),
        None => id,
    }
}

/// The lines of the first `k` nodes of the order `o`.
pub open spec fn ascii_node_lines(ns: Seq<GraphNode>, o: Seq<usize>, k: int) -> Seq<char>
    decreases k,
{
    if k <= 0 {
        Seq::empty()
    } else {
        ascii_node_lines(ns, o, k - 1) + "  N"@ + decimal_text(k as nat) + ": "@ + ascii_label(ns[o[k - 1] as int])
            + "\n"@
    }
}

/// The line of an edge.
pub open spec fn ascii_edge_line(ns: Seq<GraphNode>, on: Seq<usize>, e: GraphEdge) -> Seq<char> {
    "  "@ + short_id(ns, on, e.from@) + " -["@ + edge_kind_word(e.edge_type) + "]-> "@ + short_id(ns, on, e.to@)
        + "\n"@
}

/// The lines of the first `k` edges of the order `oe`.
pub open spec fn ascii_edge_lines(ns: Seq<GraphNode>, on: Seq<usize>, es: Seq<GraphEdge>, oe: Seq<usize>, k: int) -> Seq<char>
    decreases k,
{
    if k <= 0 {
        Seq::empty()
    } else {
        ascii_edge_lines(ns, on, es, oe, k - 1) + ascii_edge_line(ns, on, es[oe[k - 1] as int])
    }
}

/// The ASCII listing of a graph: a title, the counts, the statistics line
/// given, then the nodes in the order of their identifiers under their short
/// names, then the edges in their order.
pub open spec fn ascii_text(g: DependencyGraph, statistics: Seq<char>) -> Seq<char> {
    let on = node_order(g.nodes@);
    let oe = edge_order(g.edges@);
    "# Dependency Graph (ASCII)\n"@ + "nodes: "@ + decimal_text(g.nodes.len() as nat) + ", edges: "@
        + decimal_text(g.edges.len() as nat) + "\n"@ + statistics + "[Nodes]\n"@ + ascii_node_lines(
        g.nodes@,
        on,
        on.len() as int,
    ) + "\n[Edges]\n"@ + ascii_edge_lines(g.nodes@, on, g.edges@, oe, oe.len() as int)
}

/// An order found by `key_order` is the one the order's name picks.
proof fn lemma_order_is_chosen(ks: Seq<(Seq<char>, Seq<char>)>, o: Seq<usize>)
    requires
        is_key_order(ks, o),
    ensures
        o == choose|c: Seq<usize>| is_key_order(ks, c),
{
    let c = choose|c: Seq<usize>| is_key_order(ks, c);
    assert(is_key_order(ks, c));
    lemma_key_order_unique(ks, o, c);
}

/// The short name of the node `id` under the order `o`.
fn short_id_of(nodes: &Vec<GraphNode>, o: &Vec<usize>, id: &String) -> (r: String)
    requires
        forall|p: int| 0 <= p < o.len() ==> (o@[p] as int) < nodes.len(),
    ensures
        r@ == short_id(nodes@, o@, id@),
{
    let mut p: usize = 0;
    while p < o.len()
        invariant
            p <= o.len(),
            forall|q: int| 0 <= q < o.len() ==> (o@[q] as int) < nodes.len(),
            first_listed(nodes@, o@, id@, p as int) is None,
        decreases o.len() - p,
    {
        if same_text(nodes[o[p]].id.as_str(), id.as_str()) {
            proof {
                lemma_first_listed_stays(nodes@, o@, id@, p as int + 1, o.len() as int);
            }
            let mut s = String::from_str("N");
            s.append(format_decimal(p as u64 + 1).as_str());
            return s;
        }
        p = p + 1;
    }
    id.clone()
}

/// Once found among the first `k`, the first node with an identifier stays
/// where it is among more of them.
proof fn lemma_first_listed_stays(ns: Seq<GraphNode>, o: Seq<usize>, id: Seq<char>, k: int, l: int)
    requires
        k <= l,
        first_listed(ns, o, id, k) is Some,
    ensures
        first_listed(ns, o, id, l) == first_listed(ns, o, id, k),
    decreases l - k,
{
    if k < l {
        lemma_first_listed_stays(ns, o, id, k, l - 1);
    }
}

/// The ASCII listing of `graph` (see `ascii_text`), with the statistics line
/// `statistics` as the graph's analysis formatted it.
pub fn convert_to_ascii(graph: &DependencyGraph, statistics: &str) -> (r: String)
    ensures
        r@ == ascii_text(*graph, statistics@),
{
    let nodes = &graph.nodes;
    let edges = &graph.edges;
    let mut nkeys: Vec<(String, String)> = Vec::new();
    let mut i: usize = 0;
    while i < nodes.len()
        invariant
            i <= nodes.len(),
            key_texts(nkeys@) == node_keys(nodes@.take(i as int)),
        decreases nodes.len() - i,
    {
        let ghost before = key_texts(nkeys@);
        let empty = String::new();
        assert(empty@ =~= Seq::<char>::empty());
        nkeys.push((nodes[i].id.clone(), empty));
        assert(key_texts(nkeys@) =~= before.push((nodes@[i as int].id@, Seq::<char>::empty())));
        assert(node_keys(nodes@.take(i + 1)) =~= node_keys(nodes@.take(i as int)).push(
            (nodes@[i as int].id@, Seq::<char>::empty()),
        ));
        i = i + 1;
    }
    assert(nodes@.take(nodes.len() as int) =~= nodes@);
    let mut ekeys: Vec<(String, String)> = Vec::new();
    let mut j: usize = 0;
    while j < edges.len()
        invariant
            j <= edges.len(),
            key_texts(ekeys@) == edge_keys(edges@.take(j as int)),
        decreases edges.len() - j,
    {
        let ghost before = key_texts(ekeys@);
        ekeys.push((edges[j].from.clone(), edges[j].to.clone()));
        assert(key_texts(ekeys@) =~= before.push((edges@[j as int].from@, edges@[j as int].to@)));
        assert(edge_keys(edges@.take(j + 1)) =~= edge_keys(edges@.take(j as int)).push(
            (edges@[j as int].from@, edges@[j as int].to@),
        ));
        j = j + 1;
    }
    assert(edges@.take(edges.len() as int) =~= edges@);
    let on = key_order(&nkeys);
    let oe = key_order(&ekeys);
    proof {
        lemma_order_is_chosen(node_keys(nodes@), on@);
        lemma_order_is_chosen(edge_keys(edges@), oe@);
        vstd::seq_lib::to_multiset_len(on@);
        vstd::seq_lib::to_multiset_len(positions(nodes.len() as nat));
        vstd::seq_lib::to_multiset_len(oe@);
        vstd::seq_lib::to_multiset_len(positions(edges.len() as nat));
    }
    let ghost ns = nodes@;
    let mut out = String::from_str("# Dependency Graph (ASCII)\n");
    out.append("nodes: ");
    out.append(format_decimal(nodes.len() as u64).as_str());
    out.append(", edges: ");
    out.append(format_decimal(edges.len() as u64).as_str());
    out.append("\n");
    out.append(statistics);
    out.append("[Nodes]\n");
    let ghost head = out@;
    let mut p: usize = 0;
    while p < on.len()
        invariant
            p <= on.len(),
            ns == nodes@,
            forall|q: int| 0 <= q < on.len() ==> (on@[q] as int) < nodes.len(),
            out@ == head + ascii_node_lines(ns, on@, p as int),
        decreases on.len() - p,
    {
        let node = &nodes[on[p]];
        out.append("  N");
        out.append(format_decimal(p as u64 + 1).as_str());
        out.append(": ");
        match node.kind {
            NodeKind::Function => {
                out.append("fn ");
                out.append(node.name.as_str());
                out.append("()");
            },
            NodeKind::Class => {
                out.append("class ");
                out.append(node.name.as_str());
            },
            NodeKind::Module => {
                out.append("mod ");
                out.append(node.name.as_str());
            },
            NodeKind::File => {
                out.append("file ");
                out.append(node.name.as_str());
            },
        }
        out.append("\n");
        proof {
            reveal_strlit("  N");
            reveal_strlit(": ");
            reveal_strlit("fn ");
            reveal_strlit("()");
            reveal_strlit("class ");
            reveal_strlit("mod ");
            reveal_strlit("file ");
            reveal_strlit("\n");
        }
        assert(out@ =~= head + ascii_node_lines(ns, on@, p as int + 1));
        p = p + 1;
    }
    out.append("\n[Edges]\n");
    let ghost mid = out@;
    let mut q: usize = 0;
    while q < oe.len()
        invariant
            q <= oe.len(),
            ns == nodes@,
            forall|k: int| 0 <= k < on.len() ==> (on@[k] as int) < nodes.len(),
            forall|k: int| 0 <= k < oe.len() ==> (oe@[k] as int) < edges.len(),
            out@ == mid + ascii_edge_lines(ns, on@, edges@, oe@, q as int),
        decreases oe.len() - q,
    {
        let e = &edges[oe[q]];
        out.append("  ");
        out.append(short_id_of(nodes, &on, &e.from).as_str());
        out.append(" -[");
        out.append(edge_kind_word_of(e.edge_type));
        out.append("]-> ");
        out.append(short_id_of(nodes, &on, &e.to).as_str());
        out.append("\n");
        assert(out@ =~= mid + ascii_edge_lines(ns, on@, edges@, oe@, q as int + 1));
        q = q + 1;
    }
    out
}

} // verus!
