use crate::text::{replace_all, replace_str, same_text, texts};
use vstd::prelude::*;

verus! {

/// The git address of a rules source: `/contents` in its address made `.git`.
pub open spec fn rules_git_url(url: Seq<char>) -> Seq<char> {
    replace_all(url, "/contents"@, ".git"@)
}

/// The git address of a rules source (see `rules_git_url`).
pub fn remote_git_url(url: &str) -> (r: String)
    ensures
        r@ == rules_git_url(url@),
{
    proof {
        reveal_strlit("/contents");
    }
    replace_str(url, "/contents", ".git")
}

/// Whether the rules need an update: where the remote commit is known, when no
/// version is recorded or it differs from the recorded one; where it is not
/// known, only when there are no rules yet.
pub open spec fn rules_update_needed(remote: Option<Seq<char>>, recorded: Option<Seq<char>>, rules_present: bool) -> bool {
    match remote {
        Some(h) => match recorded {
            Some(v) => v != h,
            None => true,
        },
        None => !rules_present,
    }
}

/// The view of an optional text.
pub open spec fn opt_text_view(s: Option<&str>) -> Option<Seq<char>> {
    match s {
        Some(t) => Some(t@),
        None => None,
    }
}

/// Whether the rules need an update (see `rules_update_needed`).
pub fn rules_need_update(remote: Option<&str>, recorded: Option<&str>, rules_present: bool) -> (r: bool)
    ensures
        r == rules_update_needed(opt_text_view(remote), opt_text_view(recorded), rules_present),
{
    match remote {
        Some(h) => match recorded {
            Some(v) => !same_text(v, h),
            None => true,
        },
        None => !rules_present,
    }
}

/// Whether enough rule files are valid: at least four in five.
pub open spec fn enough_valid(valid: nat, total: nat) -> bool {
    5 * valid >= 4 * total
}

/// Whether enough of `total` rule files are valid (see `enough_valid`).
pub fn validation_rate_ok(valid: usize, total: usize) -> (r: bool)
    requires
        valid <= total,
    ensures
        r == enough_valid(valid as nat, total as nat),
{
    (valid as u128) * 5 >= (total as u128) * 4
}

proof fn lemma_contains_push(s: Seq<Seq<char>>, x: Seq<char>, y: Seq<char>)
    ensures
        s.push(x).contains(y) == (s.contains(y) || x == y),
{
    if s.push(x).contains(y) {
        let j = choose|j: int| 0 <= j < s.push(x).len() && #[trigger] s.push(x)[j] == y;
        if j < s.len() {
            assert(s[j] == y);
        }
    }
    if s.contains(y) {
        let j = choose|j: int| 0 <= j < s.len() && #[trigger] s[j] == y;
        assert(s.push(x)[j] == y);
    }
    if x == y {
        assert(s.push(x)[s.len() as int] == y);
    }
}

/// Whether a rule file names all it must: `id`, `language` and `rule`.
pub open spec fn has_required_keys(keys: Seq<Seq<char>>) -> bool {
    keys.contains("id"@) && keys.contains("language"@) && keys.contains("rule"@)
}

/// Whether the top-level keys of a rule file include `id`, `language` and `rule`.
pub fn rule_has_required_keys(keys: &Vec<String>) -> (r: bool)
    ensures
        r == has_required_keys(texts(keys@)),
{
    let mut id = false;
    let mut language = false;
    let mut rule = false;
    let mut i: usize = 0;
    while i < keys.len()
        invariant
            i <= keys.len(),
            id == texts(keys@).take(i as int).contains("id"@),
            language == texts(keys@).take(i as int).contains("language"@),
            rule == texts(keys@).take(i as int).contains("rule"@),
        decreases keys.len() - i,
    {
        let k = keys[i].as_str();
        let ghost t = texts(keys@);
        assert(t.take(i + 1) =~= t.take(i as int).push(k@));
        if same_text(k, "id") {
            id = true;
        }
        if same_text(k, "language") {
            language = true;
        }
        if same_text(k, "rule") {
            rule = true;
        }
        proof {
            lemma_contains_push(t.take(i as int), k@, "id"@);
            lemma_contains_push(t.take(i as int), k@, "language"@);
            lemma_contains_push(t.take(i as int), k@, "rule"@);
        }
        i = i + 1;
    }
    assert(texts(keys@).take(i as int) =~= texts(keys@));
    id && language && rule
}

} // verus!
