use crate::prompts::{join_path, join_str, render_variables, render_with};
use crate::text::{
    entry_texts, entry_value, has_infix, insert_entry, keys_distinct, lemma_replace_absent, lookup_entry, occurs_at,
    replace_all,
};
use vstd::prelude::*;

verus! {

/// A set of named prompt templates with `{{name}}` variables.
pub struct PromptEngine {
    templates: Vec<(String, String)>,
}

/// Text of the built-in architectural analysis template.
pub const ARCHITECTURAL: &'static str = "分析以下{{language}}代码的架构一致性：\n\n{{code}}\n\n重点关注：职责分离、耦合度、内聚性、设计模式。返回JSON格式的分析结果。";

/// Text of the built-in requirement validation template.
pub const REQUIREMENT: &'static str = "验证以下代码是否满足需求：\n需求：{{issue_description}}\n代码：\n{{language}}\n{{code}}\n\n分析需求覆盖度和实现质量。返回JSON格式结果。";

/// Text of the built-in security analysis template.
pub const SECURITY: &'static str = "分析以下{{language}}代码的安全风险：\n\n{{code}}\n\n重点关注：注入攻击、XSS、输入验证、权限控制。返回JSON格式的安全分析结果。";

/// Text of the built-in quality analysis template.
pub const QUALITY: &'static str = "分析以下{{language}}代码的质量：\n\n{{code}}\n\n重点关注：代码结构、命名规范、错误处理、可维护性。返回JSON格式的质量分析结果。";

/// The built-in templates, as (name, text) pairs in order.
pub open spec fn default_templates_text() -> Seq<(Seq<char>, Seq<char>)> {
    seq![
        ("architectural_analysis"@, ARCHITECTURAL@),
        ("requirement_validation"@, REQUIREMENT@),
        ("security_analysis"@, SECURITY@),
        ("quality_analysis"@, QUALITY@),
    ]
}

/// The names of the built-in templates.
pub open spec fn default_template_names() -> Seq<Seq<char>> {
    seq!["architectural_analysis"@, "requirement_validation"@, "security_analysis"@, "quality_analysis"@]
}

/// The value the last entry with key `k` gives it, if any.
pub open spec fn last_value(s: Seq<(Seq<char>, Seq<char>)>, k: Seq<char>) -> Option<Seq<char>>
    decreases s.len(),
{
    if s.len() == 0 {
        None
    } else if s.last().0 == k {
        Some(s.last().1)
    } else {
        last_value(s.drop_last(), k)
    }
}

/// The built-in templates stay available whatever templates come after them.
pub proof fn lemma_defaults_kept(user: Seq<(Seq<char>, Seq<char>)>, j: int)
    requires
        0 <= j < 4,
    ensures
        last_value(default_templates_text() + user, default_template_names()[j]) is Some,
    decreases user.len(),
{
    let all = default_templates_text() + user;
    let k = default_template_names()[j];
    if user.len() == 0 {
        assert(all =~= default_templates_text());
        reveal_with_fuel(last_value, 5);
        assert(default_templates_text()[j].0 == k);
        let d = default_templates_text();
        assert(d.drop_last().drop_last().drop_last().drop_last().len() == 0);
        assert(d.last() == d[3]);
        assert(d.drop_last().last() == d[2]);
        assert(d.drop_last().drop_last().last() == d[1]);
        assert(d.drop_last().drop_last().drop_last().last() == d[0]);
    } else {
        lemma_defaults_kept(user.drop_last(), j);
        assert(all.drop_last() =~= default_templates_text() + user.drop_last());
    }
}

impl PromptEngine {
    /// The engine's invariant: each template name once.
    pub closed spec fn wf(&self) -> bool {
        keys_distinct(self.templates@)
    }

    /// The template named `name`, if any.
    pub closed spec fn spec_template(&self, name: Seq<char>) -> Option<Seq<char>> {
        entry_value(self.templates@, name)
    }

    /// The built-in templates, in this order: architectural analysis, requirement
    /// validation, security analysis, quality analysis.
    pub fn get_default_templates() -> (r: Vec<(String, String)>)
        ensures
            keys_distinct(r@),
            entry_texts(r@) == default_templates_text(),
    {
        let mut t: Vec<(String, String)> = Vec::new();
        t.push((String::from_str("architectural_analysis"), String::from_str(ARCHITECTURAL)));
        t.push((String::from_str("requirement_validation"), String::from_str(REQUIREMENT)));
        t.push((String::from_str("security_analysis"), String::from_str(SECURITY)));
        t.push((String::from_str("quality_analysis"), String::from_str(QUALITY)));
        proof {
            reveal_strlit("architectural_analysis");
            reveal_strlit("requirement_validation");
            reveal_strlit("security_analysis");
            reveal_strlit("quality_analysis");
            assert(t@[0].0@[0] == 'a');
            assert(t@[1].0@[0] == 'r');
            assert(t@[2].0@[0] == 's');
            assert(t@[3].0@[0] == 'q');
            assert(entry_texts(t@) =~= default_templates_text());
        }
        t
    }

    /// An engine with the given templates; a later template of the same name
    /// replaces an earlier one.
    pub fn from_templates(templates: Vec<(String, String)>) -> (r: Self)
        ensures
            r.wf(),
            forall|k: Seq<char>| #[trigger] r.spec_template(k) == last_value(entry_texts(templates@), k),
    {
        let ghost all = entry_texts(templates@);
        let mut t: Vec<(String, String)> = Vec::new();
        let mut i: usize = 0;
        while i < templates.len()
            invariant
                i <= templates.len(),
                all == entry_texts(templates@),
                keys_distinct(t@),
                forall|k: Seq<char>| #[trigger] entry_value(t@, k) == last_value(all.take(i as int), k),
            decreases templates.len() - i,
        {
            let ghost before = t@;
            insert_entry(&mut t, templates[i].0.as_str(), templates[i].1.as_str());
            proof {
                assert(all.take(i + 1).drop_last() =~= all.take(i as int));
                assert(all.take(i + 1).last() == all[i as int]);
                assert forall|k: Seq<char>| #[trigger] entry_value(t@, k) == last_value(all.take(i + 1), k) by {
                    if k != templates@[i as int].0@ {
                        assert(entry_value(t@, k) == entry_value(before, k));
                    }
                }
            }
            i = i + 1;
        }
        assert(all.take(templates.len() as int) =~= all);
        PromptEngine { templates: t }
    }

    /// The engine with the built-in templates, then `user_templates` (loaded from
    /// the user's `prompts.yaml`), which replace built-in ones of the same name.
    pub fn new(user_templates: Vec<(String, String)>) -> (r: Result<Self, String>)
        ensures
            r matches Ok(e) && e.wf() && forall|k: Seq<char>| #[trigger] e.spec_template(k) == last_value(
                default_templates_text() + entry_texts(user_templates@),
                k,
            ),
    {
        let ghost user = entry_texts(user_templates@);
        let mut all = Self::get_default_templates();
        let ghost defaults = all@;
        let mut rest = user_templates;
        all.append(&mut rest);
        assert(entry_texts(all@) =~= default_templates_text() + user) by {
            assert(all@ =~= defaults + user_templates@);
            assert(entry_texts(defaults) == default_templates_text());
        }
        Ok(Self::from_templates(all))
    }

    /// Where the user's templates are: `prompts.yaml` in the configured
    /// directory, else under `.config/gitai` in the home directory, if known.
    pub fn get_config_path(directory: Option<&str>, home: Option<&str>) -> (r: Option<String>)
        ensures
            match directory {
                Some(d) => r matches Some(p) && p@ == join_path(d@, "prompts.yaml"@),
                None => match home {
                    Some(h) => r matches Some(p) && p@ == join_path(
                        join_path(join_path(h@, ".config"@), "gitai"@),
                        "prompts.yaml"@,
                    ),
                    None => r is None,
                },
            },
    {
        match directory {
            Some(d) => Some(join_str(d, "prompts.yaml")),
            None => match home {
                Some(h) => {
                    let c = join_str(h, ".config");
                    let g = join_str(c.as_str(), "gitai");
                    Some(join_str(g.as_str(), "prompts.yaml"))
                },
                None => None,
            },
        }
    }

    /// The template `template_name` with each variable `{{name}}` of `context` (in
    /// order) replaced by its value.
    pub fn render(&self, template_name: &str, context: &Vec<(String, String)>) -> (r: Result<String, String>)
        requires
            self.wf(),
        ensures
            match self.spec_template(template_name@) {
                Some(t) => r matches Ok(x) && x@ == render_with(t, entry_texts(context@), "{{"@, "}}"@),
                None => r matches Err(e) && e@ == "模板 '"@ + template_name@ + "' 未找到"@,
            },
    {
        match lookup_entry(&self.templates, template_name) {
            Some(t) => {
                proof {
                    reveal_strlit("{{");
                }
                Ok(render_variables(t, context, "{{", "}}"))
            },
            None => {
                let mut e = String::from_str("模板 '");
                e.append(template_name);
                e.append("' 未找到");
                Err(e)
            },
        }
    }

    /// Whether a template is named `template_name`.
    pub fn has_template(&self, template_name: &str) -> (r: bool)
        requires
            self.wf(),
        ensures
            r == self.spec_template(template_name@) is Some,
    {
        lookup_entry(&self.templates, template_name).is_some()
    }
}

/// Rendering keeps all text that is not a variable of the context: a template
/// in which no `{{name}}` of a context entry occurs comes back unchanged.
pub proof fn lemma_render_keeps_text_without_variables(t: Seq<char>, context: Seq<(Seq<char>, Seq<char>)>)
    requires
        forall|i: int| 0 <= i < context.len() ==> !has_infix(t, "{{"@ + #[trigger] context[i].0 + "}}"@),
    ensures
        render_with(t, context, "{{"@, "}}"@) == t,
    decreases context.len(),
{
    if context.len() > 0 {
        let rest = context.drop_last();
        assert forall|i: int| 0 <= i < rest.len() implies !has_infix(t, "{{"@ + #[trigger] rest[i].0 + "}}"@) by {
            assert(rest[i] == context[i]);
        }
        lemma_render_keeps_text_without_variables(t, rest);
        reveal_strlit("{{");
        let last = context[context.len() - 1];
        assert(context.last() == last);
        lemma_replace_absent(t, "{{"@ + last.0 + "}}"@, last.1);
    }
}

/// A piece of a template: plain text, or a variable written `{{name}}`.
pub ghost enum TemplatePiece {
    /// Text, as it is.
    Text(Seq<char>),
    /// The variable of this name.
    Var(Seq<char>),
}

/// Whether `s` holds no brace.
pub open spec fn brace_free(s: Seq<char>) -> bool {
    forall|i: int| 0 <= i < s.len() ==> s[i] != '{' && s[i] != '}'
}

/// How the variable `name` is written in a template.
pub open spec fn placeholder(name: Seq<char>) -> Seq<char> {
    "{{"@ + name + "}}"@
}

/// The text of a piece.
pub open spec fn piece_text(p: TemplatePiece) -> Seq<char> {
    match p {
        TemplatePiece::Text(t) => t,
        TemplatePiece::Var(n) => placeholder(n),
    }
}

/// The text of a template made of `ps`.
pub open spec fn pieces_text(ps: Seq<TemplatePiece>) -> Seq<char>
    decreases ps.len(),
{
    if ps.len() == 0 {
        Seq::empty()
    } else {
        piece_text(ps[0]) + pieces_text(ps.skip(1))
    }
}

/// Whether the texts and variable names of `ps` hold no brace: braces come
/// only from the variables' `{{` and `}}`.
pub open spec fn plain_pieces(ps: Seq<TemplatePiece>) -> bool {
    forall|i: int|
        0 <= i < ps.len() ==> match #[trigger] ps[i] {
            TemplatePiece::Text(t) => brace_free(t),
            TemplatePiece::Var(n) => brace_free(n),
        }
}

/// Whether the names and values of a context hold no brace.
pub open spec fn plain_context(ctx: Seq<(Seq<char>, Seq<char>)>) -> bool {
    forall|i: int| 0 <= i < ctx.len() ==> brace_free(#[trigger] ctx[i].0) && brace_free(ctx[i].1)
}

/// The value the first entry named `n` of `ctx` gives, if any.
pub open spec fn context_value(ctx: Seq<(Seq<char>, Seq<char>)>, n: Seq<char>) -> Option<Seq<char>>
    decreases ctx.len(),
{
    if ctx.len() == 0 {
        None
    } else {
        match context_value(ctx.drop_last(), n) {
            Some(v) => Some(v),
            None => if ctx.last().0 == n {
                Some(ctx.last().1)
            } else {
                None
            },
        }
    }
}

/// A piece filled in from `ctx`: a variable of the context becomes its value;
/// any other piece, an unknown variable included, stays as it is written.
pub open spec fn fill_piece(p: TemplatePiece, ctx: Seq<(Seq<char>, Seq<char>)>) -> Seq<char> {
    match p {
        TemplatePiece::Var(n) => match context_value(ctx, n) {
            Some(v) => v,
            None => placeholder(n),
        },
        TemplatePiece::Text(t) => t,
    }
}

/// The template made of `ps` filled in from `ctx`, piece by piece.
pub open spec fn filled_text(ps: Seq<TemplatePiece>, ctx: Seq<(Seq<char>, Seq<char>)>) -> Seq<char>
    decreases ps.len(),
{
    if ps.len() == 0 {
        Seq::empty()
    } else {
        fill_piece(ps[0], ctx) + filled_text(ps.skip(1), ctx)
    }
}

spec fn subst_piece(p: TemplatePiece, ctx: Seq<(Seq<char>, Seq<char>)>) -> TemplatePiece {
    match p {
        TemplatePiece::Var(n) => match context_value(ctx, n) {
            Some(v) => TemplatePiece::Text(v),
            None => p,
        },
        _ => p,
    }
}

spec fn subst_pieces(ps: Seq<TemplatePiece>, ctx: Seq<(Seq<char>, Seq<char>)>) -> Seq<TemplatePiece> {
    ps.map_values(|p: TemplatePiece| subst_piece(p, ctx))
}

spec fn subst_one(ps: Seq<TemplatePiece>, k: Seq<char>, v: Seq<char>) -> Seq<TemplatePiece> {
    ps.map_values(
        |p: TemplatePiece|
            match p {
                TemplatePiece::Var(n) => if n == k {
                    TemplatePiece::Text(v)
                } else {
                    p
                },
                _ => p,
            },
    )
}

/// Where no match of `pat` starts among the first `m` places of `s`,
/// replacing copies those places.
proof fn lemma_replace_skips(s: Seq<char>, pat: Seq<char>, rep: Seq<char>, m: int)
    requires
        pat.len() > 0,
        0 <= m <= s.len(),
        forall|i: int| 0 <= i < m ==> !occurs_at(s, pat, i),
    ensures
        replace_all(s, pat, rep) == s.take(m) + replace_all(s.skip(m), pat, rep),
    decreases m,
{
    if m == 0 {
        assert(s.take(0) + s.skip(0) =~= s.skip(0));
        assert(s.skip(0) =~= s);
    } else if s.len() < pat.len() {
        assert(s.take(m) + s.skip(m) =~= s);
    } else {
        assert(!occurs_at(s, pat, 0));
        assert(s.subrange(0, pat.len() as int) =~= s.take(pat.len() as int));
        let t = s.skip(1);
        assert forall|i: int| 0 <= i < m - 1 implies !occurs_at(t, pat, i) by {
            assert(!occurs_at(s, pat, i + 1));
            if i + pat.len() <= t.len() {
                assert(t.subrange(i, i + pat.len()) =~= s.subrange(i + 1, i + 1 + pat.len()));
            }
        }
        lemma_replace_skips(t, pat, rep, m - 1);
        assert(seq![s[0]] + (t.take(m - 1) + replace_all(t.skip(m - 1), pat, rep)) =~= s.take(m) + replace_all(
            s.skip(m),
            pat,
            rep,
        )) by {
            assert(t.skip(m - 1) =~= s.skip(m));
        }
    }
}

/// No match of the placeholder of `k` starts inside a plain piece other than
/// that placeholder.
proof fn lemma_no_match_inside(q: TemplatePiece, rest: Seq<char>, k: Seq<char>, i: int)
    requires
        brace_free(k),
        match q {
            TemplatePiece::Text(t) => brace_free(t),
            TemplatePiece::Var(n) => brace_free(n) && n != k,
        },
        0 <= i < piece_text(q).len(),
    ensures
        !occurs_at(piece_text(q) + rest, placeholder(k), i),
{
    reveal_strlit("{{");
    reveal_strlit("}}");
    let s = piece_text(q) + rest;
    let pat = placeholder(k);
    assert(pat[0] == '{' && pat[1] == '{');
    if occurs_at(s, pat, i) {
        let w = s.subrange(i, i + pat.len());
        assert(w[0] == s[i]);
        match q {
            TemplatePiece::Text(t) => {
                assert(s[i] == t[i]);
            },
            TemplatePiece::Var(n) => {
                let p = placeholder(n);
                assert(s[i] == p[i]);
                if i == 0 {
                    if n.len() == k.len() {
                        assert forall|j: int| 0 <= j < n.len() implies n[j] == k[j] by {
                            assert(w[2 + j] == s[2 + j]);
                            assert(s[2 + j] == p[2 + j]);
                            assert(p[2 + j] == n[j]);
                            assert(pat[2 + j] == k[j]);
                        }
                        assert(n =~= k);
                    } else if n.len() < k.len() {
                        let j: int = 2 + n.len() as int;
                        assert(w[j] == s[j]);
                        assert(s[j] == p[j]);
                        assert(p[j] == '}');
                        assert(pat[j] == k[n.len() as int]);
                    } else {
                        let j: int = 2 + k.len() as int;
                        assert(w[j] == s[j]);
                        assert(s[j] == p[j]);
                        assert(p[j] == n[k.len() as int]);
                        assert(pat[j] == '}');
                    }
                } else if i == 1 {
                    assert(w[1] == s[2]);
                    assert(s[2] == p[2]);
                    if n.len() > 0 {
                        assert(p[2] == n[0]);
                    } else {
                        assert(p[2] == '}');
                    }
                } else if i < 2 + n.len() {
                    assert(p[i] == n[i - 2]);
                } else {
                    assert(p[i] == '}');
                }
            },
        }
    }
}

/// Replacing the placeholder of `k` by `v` in a plain template replaces exactly
/// its variables named `k`.
proof fn lemma_replace_pieces(qs: Seq<TemplatePiece>, k: Seq<char>, v: Seq<char>)
    requires
        plain_pieces(qs),
        brace_free(k),
    ensures
        replace_all(pieces_text(qs), placeholder(k), v) == pieces_text(subst_one(qs, k, v)),
    decreases qs.len(),
{
    reveal_strlit("{{");
    reveal_strlit("}}");
    let pat = placeholder(k);
    let s = pieces_text(qs);
    if qs.len() == 0 {
        assert(subst_one(qs, k, v).len() == 0);
    } else {
        let q = qs[0];
        let tail = qs.skip(1);
        assert(plain_pieces(tail)) by {
            assert forall|i: int| 0 <= i < tail.len() implies match #[trigger] tail[i] {
                TemplatePiece::Text(t) => brace_free(t),
                TemplatePiece::Var(n) => brace_free(n),
            } by {
                assert(tail[i] == qs[i + 1]);
            }
        }
        lemma_replace_pieces(tail, k, v);
        let sq = subst_one(qs, k, v);
        assert(sq.skip(1) =~= subst_one(tail, k, v));
        assert(plain_pieces(qs) ==> match qs[0] {
            TemplatePiece::Text(t) => brace_free(t),
            TemplatePiece::Var(n) => brace_free(n),
        });
        if q == TemplatePiece::Var(k) {
            assert(s.take(pat.len() as int) =~= pat);
            assert(s.skip(pat.len() as int) =~= pieces_text(tail));
            assert(sq[0] == TemplatePiece::Text(v));
        } else {
            let m = piece_text(q).len() as int;
            assert forall|i: int| 0 <= i < m implies !occurs_at(s, pat, i) by {
                lemma_no_match_inside(q, pieces_text(tail), k, i);
            }
            lemma_replace_skips(s, pat, v, m);
            assert(s.take(m) =~= piece_text(q));
            assert(s.skip(m) =~= pieces_text(tail));
            assert(sq[0] == q);
        }
    }
}

proof fn lemma_render_pieces(ps: Seq<TemplatePiece>, ctx: Seq<(Seq<char>, Seq<char>)>)
    requires
        plain_pieces(ps),
        plain_context(ctx),
    ensures
        render_with(pieces_text(ps), ctx, "{{"@, "}}"@) == pieces_text(subst_pieces(ps, ctx)),
        plain_pieces(subst_pieces(ps, ctx)),
    decreases ctx.len(),
{
    if ctx.len() == 0 {
        assert(subst_pieces(ps, ctx) =~= ps);
    } else {
        let c0 = ctx.drop_last();
        assert(plain_context(c0)) by {
            assert forall|i: int| 0 <= i < c0.len() implies brace_free(#[trigger] c0[i].0) && brace_free(c0[i].1) by {
                assert(c0[i] == ctx[i]);
            }
        }
        lemma_render_pieces(ps, c0);
        let qs = subst_pieces(ps, c0);
        let (k, v) = ctx.last();
        assert(brace_free(ctx[ctx.len() - 1].0) && brace_free(ctx[ctx.len() - 1].1));
        lemma_replace_pieces(qs, k, v);
        assert(subst_one(qs, k, v) =~= subst_pieces(ps, ctx));
        assert forall|i: int| 0 <= i < subst_pieces(ps, ctx).len() implies match #[trigger] subst_pieces(ps, ctx)[i] {
            TemplatePiece::Text(t) => brace_free(t),
            TemplatePiece::Var(n) => brace_free(n),
        } by {
            let p = ps[i];
            assert(match p {
                TemplatePiece::Text(t) => brace_free(t),
                TemplatePiece::Var(n) => brace_free(n),
            });
            if let TemplatePiece::Var(n) = p {
                if context_value(c0, n) is Some {
                    assert(match qs[i] {
                        TemplatePiece::Text(t) => brace_free(t),
                        TemplatePiece::Var(n) => brace_free(n),
                    });
                }
            }
        }
    }
}

proof fn lemma_filled_is_subst(ps: Seq<TemplatePiece>, ctx: Seq<(Seq<char>, Seq<char>)>)
    ensures
        filled_text(ps, ctx) == pieces_text(subst_pieces(ps, ctx)),
    decreases ps.len(),
{
    if ps.len() > 0 {
        lemma_filled_is_subst(ps.skip(1), ctx);
        assert(subst_pieces(ps, ctx).skip(1) =~= subst_pieces(ps.skip(1), ctx));
    }
}

/// Rendering fills in a template piece by piece: where the template's text and
/// variable names and the context's names and values hold no braces (braces
/// come only from the variables' `{{` and `}}`), each variable of the context
/// becomes the value of its first entry and all else, variables the context does
/// not name included, stays as it is written.
pub proof fn lemma_render_fills_variables(ps: Seq<TemplatePiece>, ctx: Seq<(Seq<char>, Seq<char>)>)
    requires
        plain_pieces(ps),
        plain_context(ctx),
    ensures
        render_with(pieces_text(ps), ctx, "{{"@, "}}"@) == filled_text(ps, ctx),
{
    lemma_render_pieces(ps, ctx);
    lemma_filled_is_subst(ps, ctx);
}

} // verus!
