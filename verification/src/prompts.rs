use crate::text::{
    entry_texts, entry_value, has_prefix, insert_entry, keys_distinct, lookup_entry, replace_all,
    replace_str, str_starts_with,
};
use vstd::prelude::*;

verus! {

/// `t` with each variable of `vars`, in order, written `open` + name + `close`,
/// replaced by its value.
pub open spec fn render_with(
    t: Seq<char>,
    vars: Seq<(Seq<char>, Seq<char>)>,
    open: Seq<char>,
    close: Seq<char>,
) -> Seq<char>
    decreases vars.len(),
{
    if vars.len() == 0 {
        t
    } else {
        replace_all(render_with(t, vars.drop_last(), open, close), open + vars.last().0 + close, vars.last().1)
    }
}

/// Replaces each variable of `vars`, in order, written `open` + name + `close`, by its value.
pub fn render_variables(t: &str, vars: &Vec<(String, String)>, open: &str, close: &str) -> (r: String)
    requires
        open@.len() > 0,
    ensures
        r@ == render_with(t@, entry_texts(vars@), open@, close@),
{
    let ghost ev = entry_texts(vars@);
    let mut out = String::from_str(t);
    let mut i: usize = 0;
    assert(ev.take(0) =~= Seq::<(Seq<char>, Seq<char>)>::empty());
    while i < vars.len()
        invariant
            i <= vars.len(),
            open@.len() > 0,
            ev == entry_texts(vars@),
            out@ == render_with(t@, ev.take(i as int), open@, close@),
        decreases vars.len() - i,
    {
        let mut placeholder = String::from_str(open);
        placeholder.append(vars[i].0.as_str());
        placeholder.append(close);
        let next = replace_str(out.as_str(), placeholder.as_str(), vars[i].1.as_str());
        proof {
            assert(ev.take(i + 1).drop_last() =~= ev.take(i as int));
            assert(ev.take(i + 1).last() == (vars@[i as int].0@, vars@[i as int].1@));
        }
        out = next;
        i = i + 1;
    }
    assert(ev.take(i as int) =~= ev);
    out
}

/// Values of the variables of a prompt template.
pub struct PromptContext {
    variables: Vec<(String, String)>,
}

impl PromptContext {
    /// The context's invariant: each variable once.
    pub closed spec fn wf(&self) -> bool {
        keys_distinct(self.variables@)
    }

    /// The value of variable `key`, if set.
    pub closed spec fn spec_variable(&self, key: Seq<char>) -> Option<Seq<char>> {
        entry_value(self.variables@, key)
    }

    /// The variables and their values, in the order first set.
    pub closed spec fn spec_variables(&self) -> Seq<(Seq<char>, Seq<char>)> {
        entry_texts(self.variables@)
    }

    /// A context without variables.
    pub fn new() -> (r: Self)
        ensures
            r.wf(),
            r.spec_variables().len() == 0,
            forall|k: Seq<char>| r.spec_variable(k) is None,
    {
        PromptContext { variables: Vec::new() }
    }

    /// The context with `key` set to `value`.
    pub fn with_variable(self, key: &str, value: &str) -> (r: Self)
        requires
            self.wf(),
        ensures
            r.wf(),
            r.spec_variable(key@) == Some(value@),
            forall|k: Seq<char>| k != key@ ==> r.spec_variable(k) == self.spec_variable(k),
    {
        let mut c = self;
        c.set_variable(key, value);
        c
    }

    /// Sets `key` to `value`.
    pub fn set_variable(&mut self, key: &str, value: &str)
        requires
            old(self).wf(),
        ensures
            final(self).wf(),
            final(self).spec_variable(key@) == Some(value@),
            forall|k: Seq<char>| k != key@ ==> final(self).spec_variable(k) == old(self).spec_variable(k),
    {
        insert_entry(&mut self.variables, key, value);
    }

    /// The value of variable `key`, if set.
    pub fn get_variable(&self, key: &str) -> (r: Option<&str>)
        requires
            self.wf(),
        ensures
            match self.spec_variable(key@) {
                Some(v) => r matches Some(x) && x@ == v,
                None => r is None,
            },
    {
        lookup_entry(&self.variables, key)
    }

    /// The variables and their values, in the order first set.
    pub fn variables(&self) -> (r: &Vec<(String, String)>)
        ensures
            entry_texts(r@) == self.spec_variables(),
    {
        &self.variables
    }
}

impl Default for PromptContext {
    /// A context without variables.
    fn default() -> (r: Self)
        ensures
            r.wf(),
            r.spec_variables().len() == 0,
    {
        PromptContext::new()
    }
}

/// `base` joined with the relative path `rest`, as a path: with a `/` between
/// them unless `base` is empty or already ends with one.
pub open spec fn join_path(base: Seq<char>, rest: Seq<char>) -> Seq<char> {
    if base.len() == 0 {
        rest
    } else if base.last() == '/' {
        base + rest
    } else {
        base + "/"@ + rest
    }
}

/// Where a template is looked for, in order: for the user's directory and then
/// the bundled one, first under the language's subdirectory when a language is
/// given, then directly; the file is named after the template with `.md`.
pub open spec fn template_search_order(
    prompts_dir: Seq<char>,
    assets_dir: Seq<char>,
    name: Seq<char>,
    language: Option<Seq<char>>,
) -> Seq<Seq<char>> {
    let file = name + ".md"@;
    match language {
        Some(l) => seq![
            join_path(join_path(prompts_dir, l), file),
            join_path(prompts_dir, file),
            join_path(join_path(assets_dir, l), file),
            join_path(assets_dir, file),
        ],
        None => seq![join_path(prompts_dir, file), join_path(assets_dir, file)],
    }
}

pub(crate) fn join_str(base: &str, rest: &str) -> (r: String)
    ensures
        r@ == join_path(base@, rest@),
{
    let mut out = String::from_str(base);
    let n = base.unicode_len();
    if n == 0 {
        return String::from_str(rest);
    }
    proof {
        reveal_strlit("/");
    }
    if base.get_char(n - 1) != '/' {
        out.append("/");
    }
    out.append(rest);
    out
}

/// Loads and renders prompt templates.
pub struct PromptManager {
    language: Option<String>,
}

impl PromptManager {
    /// The configured language, if any.
    pub closed spec fn spec_language(&self) -> Option<Seq<char>> {
        match self.language {
            Some(l) => Some(l@),
            None => None,
        }
    }

    /// A manager for the configured language, if any.
    pub fn new(language: Option<String>) -> (r: Self)
        ensures
            r.spec_language() == (match language {
                Some(l) => Some(l@),
                None => None::<Seq<char>>,
            }),
    {
        PromptManager { language }
    }

    /// The user's template directory: `.config/gitai/prompts` under the home
    /// directory, or under the current one where the home is unknown.
    pub fn get_prompts_dir(home: Option<&str>) -> (r: String)
        ensures
            r@ == join_path(
                join_path(
                    join_path(
                        match home {
                            Some(h) => h@,
                            None => "."@,
                        },
                        ".config"@,
                    ),
                    "gitai"@,
                ),
                "prompts"@,
            ),
    {
        let base = match home {
            Some(h) => h,
            None => ".",
        };
        let c = join_str(base, ".config");
        let g = join_str(c.as_str(), "gitai");
        join_str(g.as_str(), "prompts")
    }

    /// The paths at which the template `template_name` is looked for, in the
    /// order they are tried; the first that exists is the template's file.
    pub fn get_template_path(
        prompts_dir: &str,
        assets_dir: &str,
        template_name: &str,
        language: Option<&str>,
    ) -> (r: Vec<String>)
        ensures
            r@.map_values(|p: String| p@) == template_search_order(
                prompts_dir@,
                assets_dir@,
                template_name@,
                match language {
                    Some(l) => Some(l@),
                    None => None,
                },
            ),
    {
        let mut file = String::from_str(template_name);
        file.append(".md");
        let mut out: Vec<String> = Vec::new();
        match language {
            Some(l) => {
                out.push(join_str(join_str(prompts_dir, l).as_str(), file.as_str()));
                out.push(join_str(prompts_dir, file.as_str()));
                out.push(join_str(join_str(assets_dir, l).as_str(), file.as_str()));
                out.push(join_str(assets_dir, file.as_str()));
            },
            None => {
                out.push(join_str(prompts_dir, file.as_str()));
                out.push(join_str(assets_dir, file.as_str()));
            },
        }
        proof {
            reveal_strlit(".md");
        }
        assert(out@.map_values(|p: String| p@) =~= template_search_order(
            prompts_dir@,
            assets_dir@,
            template_name@,
            match language {
                Some(l) => Some(l@),
                None => None,
            },
        ));
        out
    }

    /// The template with each variable `{name}` of `context` replaced by its value.
    pub fn render_template(&self, template_content: &str, context: &PromptContext) -> (r: String)
        ensures
            r@ == render_with(template_content@, context.spec_variables(), "{"@, "}"@),
    {
        proof {
            reveal_strlit("{");
        }
        render_variables(template_content, context.variables(), "{", "}")
    }

    /// Renders the template named `template_name` from its content, loaded by the
    /// caller; fails when no template file was found.
    pub fn load_and_render(
        &self,
        template_name: &str,
        content: Option<String>,
        context: &PromptContext,
    ) -> (r: Result<String, String>)
        ensures
            match content {
                Some(c) => r matches Ok(x) && x@ == render_with(c@, context.spec_variables(), "{"@, "}"@),
                None => r matches Err(e) && e@ == "未找到提示词模板: "@ + template_name@,
            },
    {
        match content {
            Some(c) => Ok(self.render_template(c.as_str(), context)),
            None => {
                let mut e = String::from_str("未找到提示词模板: ");
                e.append(template_name);
                Err(e)
            },
        }
    }

    /// The language of the prompts: the configured one, else `cn` when the
    /// locale (`lang_env`, the `LANG` variable) starts with `zh`.
    pub fn get_language(&self, lang_env: Option<&str>) -> (r: Option<String>)
        ensures
            match self.spec_language() {
                Some(l) => r matches Some(x) && x@ == l,
                None => match lang_env {
                    Some(e) => if has_prefix(e@, "zh"@) {
                        r matches Some(x) && x@ == "cn"@
                    } else {
                        r is None
                    },
                    None => r is None,
                },
            },
    {
        match &self.language {
            Some(l) => Some(l.clone()),
            None => match lang_env {
                Some(e) => if str_starts_with(e, "zh") {
                    Some(String::from_str("cn"))
                } else {
                    None
                },
                None => None,
            },
        }
    }
}

} // verus!
