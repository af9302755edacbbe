use crate::mcp::rmcp_compat::{service_error_text, ServiceError};
use crate::text::{decimal_text, format_decimal, has_infix, same_text, str_contains};
use vstd::prelude::*;

verus! {

/// Helpers for MCP services.
pub struct McpUtils;

/// Nanoseconds since the Unix epoch, from the system clock (0 if the clock is set
/// before the epoch).
#[verifier::external_body]
fn clock_nanos() -> u64 {
    std::time::SystemTime::now().duration_since(std::time::UNIX_EPOCH).unwrap_or_default().as_nanos() as u64
}

impl McpUtils {
    /// An error's message for the user: `MCP 错误: ` and the error's text.
    pub fn format_error_message(error: &ServiceError) -> (r: String)
        ensures
            r@ == "MCP 错误: "@ + service_error_text(*error),
    {
        let mut out = String::from_str("MCP 错误: ");
        out.append(error.to_string().as_str());
        out
    }

    /// Checks a resource URI: it must not be empty and must contain `://`.
    pub fn validate_resource_uri(uri: &str) -> (r: Result<(), ServiceError>)
        ensures
            uri@.len() == 0 ==> (r matches Err(ServiceError::InvalidParams(m)) && m@ == "资源 URI 不能为空"@),
            uri@.len() > 0 && !has_infix(uri@, "://"@) ==> (r matches Err(ServiceError::InvalidParams(m))
                && m@ == "资源 URI 格式无效"@),
            uri@.len() > 0 && has_infix(uri@, "://"@) ==> r is Ok,
    {
        if uri.unicode_len() == 0 {
            return Err(ServiceError::invalid_params(String::from_str("资源 URI 不能为空")));
        }
        if !str_contains(uri, "://") {
            return Err(ServiceError::invalid_params(String::from_str("资源 URI 格式无效")));
        }
        Ok(())
    }

    /// A request identifier: `req_` and the time in nanoseconds since the Unix epoch.
    pub fn generate_request_id() -> (r: String)
        ensures
            exists|t: u64| r@ == "req_"@ + decimal_text(t as nat),
    {
        let t = clock_nanos();
        let mut out = String::from_str("req_");
        out.append(format_decimal(t).as_str());
        out
    }
}

/// Some entry of `s` has the key `k`.
pub open spec fn has_key<V>(s: Seq<(String, V)>, k: Seq<char>) -> bool {
    exists|i: int| 0 <= i < s.len() && #[trigger] s[i].0@ == k
}

/// No two entries of `s` share a key.
pub open spec fn unique_keys<V>(s: Seq<(String, V)>) -> bool {
    forall|i: int, j: int| 0 <= i < s.len() && 0 <= j < s.len() && #[trigger] s[i].0@ == #[trigger] s[j].0@ ==> i == j
}

/// The position of an entry of `s` with the key `k`.
pub open spec fn key_index<V>(s: Seq<(String, V)>, k: Seq<char>) -> int {
    choose|i: int| 0 <= i < s.len() && #[trigger] s[i].0@ == k
}

/// The entries of `s` as a map from key to value.
pub open spec fn entries_map<V>(s: Seq<(String, V)>) -> Map<Seq<char>, V> {
    Map::new(|k: Seq<char>| has_key(s, k), |k: Seq<char>| s[key_index(s, k)].1)
}

/// Where the keys are unique, the entry with key `k` is the one at `i`.
proof fn lemma_key_index<V>(s: Seq<(String, V)>, i: int)
    requires
        unique_keys(s),
        0 <= i < s.len(),
    ensures
        has_key(s, s[i].0@),
        key_index(s, s[i].0@) == i,
        entries_map(s).contains_key(s[i].0@),
        entries_map(s)[s[i].0@] == s[i].1,
{
    let k = s[i].0@;
    assert(has_key(s, k));
    let j = key_index(s, k);
    assert(s[j].0@ == s[i].0@);
}

/// Dropping the first entry of a suffix takes its key out of the map.
proof fn lemma_suffix_step<V>(s: Seq<(String, V)>, m: int)
    requires
        unique_keys(s),
        0 < m <= s.len(),
    ensures
        unique_keys(s.subrange(m - 1, s.len() as int)),
        unique_keys(s.subrange(m, s.len() as int)),
        entries_map(s.subrange(m - 1, s.len() as int)) == entries_map(s.subrange(m, s.len() as int)).insert(
            s[m - 1].0@,
            s[m - 1].1,
        ),
{
    let n = s.len() as int;
    let t = s.subrange(m - 1, n);
    let u = s.subrange(m, n);
    assert forall|i: int, j: int| 0 <= i < t.len() && 0 <= j < t.len() && #[trigger] t[i].0@ == #[trigger] t[j].0@ implies i == j by {
        assert(t[i] == s[m - 1 + i]);
        assert(t[j] == s[m - 1 + j]);
    }
    assert forall|i: int, j: int| 0 <= i < u.len() && 0 <= j < u.len() && #[trigger] u[i].0@ == #[trigger] u[j].0@ implies i == j by {
        assert(u[i] == s[m + i]);
        assert(u[j] == s[m + j]);
    }
    let k = s[m - 1].0@;
    assert(t[0] == s[m - 1]);
    lemma_key_index(t, 0);
    assert forall|x: Seq<char>| #[trigger] has_key(t, x) <==> (x == k || has_key(u, x)) by {
        if has_key(u, x) {
            let j = choose|j: int| 0 <= j < u.len() && #[trigger] u[j].0@ == x;
            assert(t[j + 1] == u[j]);
        }
        if has_key(t, x) && x != k {
            let j = choose|j: int| 0 <= j < t.len() && #[trigger] t[j].0@ == x;
            assert(j != 0);
            assert(u[j - 1] == t[j]);
        }
    }
    assert forall|x: Seq<char>| has_key(u, x) && x != k implies #[trigger] entries_map(t)[x] == entries_map(u)[x] by {
        let j = choose|j: int| 0 <= j < u.len() && #[trigger] u[j].0@ == x;
        assert(t[j + 1] == u[j]);
        lemma_key_index(u, j);
        lemma_key_index(t, j + 1);
    }
    assert(entries_map(t) =~= entries_map(u).insert(k, s[m - 1].1));
}

/// Settings by name, each name at most once.
pub struct ConfigMap<V> {
    entries: Vec<(String, V)>,
}

impl<V> View for ConfigMap<V> {
    type V = Map<Seq<char>, V>;

    closed spec fn view(&self) -> Map<Seq<char>, V> {
        entries_map(self.entries@)
    }
}

impl<V> ConfigMap<V> {
    /// The settings in the order they were first set.
    pub closed spec fn spec_entries(&self) -> Seq<(Seq<char>, V)> {
        self.entries@.map_values(|e: (String, V)| (e.0@, e.1))
    }

    /// No name occurs twice.
    pub closed spec fn wf(&self) -> bool {
        unique_keys(self.entries@)
    }

    /// No settings.
    pub fn new() -> (r: Self)
        ensures
            r.wf(),
            r@ == Map::<Seq<char>, V>::empty(),
            r.spec_entries().len() == 0,
    {
        let r = ConfigMap { entries: Vec::new() };
        assert(r@ =~= Map::<Seq<char>, V>::empty());
        r
    }

    fn position(&self, key: &str) -> (r: Option<usize>)
        requires
            self.wf(),
        ensures
            match r {
                Some(i) => i < self.entries.len() && self.entries@[i as int].0@ == key@,
                None => !has_key(self.entries@, key@),
            },
    {
        let mut i: usize = 0;
        while i < self.entries.len()
            invariant
                i <= self.entries.len(),
                forall|j: int| 0 <= j < i ==> self.entries@[j].0@ != key@,
            decreases self.entries.len() - i,
        {
            if same_text(self.entries[i].0.as_str(), key) {
                return Some(i);
            }
            i = i + 1;
        }
        None
    }

    /// Sets `key` to `value`, in place of what it held.
    pub fn insert(&mut self, key: String, value: V)
        requires
            old(self).wf(),
        ensures
            final(self).wf(),
            final(self)@ == old(self)@.insert(key@, value),
            !old(self)@.contains_key(key@) ==> final(self).spec_entries() == old(self).spec_entries().push((key@, value)),
            old(self)@.contains_key(key@) ==> exists|i: int|
                0 <= i < old(self).spec_entries().len() && old(self).spec_entries()[i].0 == key@
                    && final(self).spec_entries() == old(self).spec_entries().update(i, (key@, value)),
    {
        let ghost s = self.entries@;
        let ghost k = key@;
        match self.position(key.as_str()) {
            Some(i) => {
                self.entries.set(i, (key, value));
                assert(self.spec_entries() =~= old(self).spec_entries().update(i as int, (k, value)));
                assert(old(self).spec_entries()[i as int].0 == k);
                proof {
                    let t = self.entries@;
                    assert forall|a: int, b: int| 0 <= a < t.len() && 0 <= b < t.len() && #[trigger] t[a].0@ == #[trigger] t[b].0@ implies a == b by {
                        assert(t[a].0@ == s[a].0@);
                        assert(t[b].0@ == s[b].0@);
                    }
                    lemma_key_index(t, i as int);
                    assert forall|x: Seq<char>| #[trigger] has_key(t, x) <==> has_key(s, x) by {
                        if has_key(t, x) {
                            let j = choose|j: int| 0 <= j < t.len() && #[trigger] t[j].0@ == x;
                            assert(s[j].0@ == x);
                        }
                        if has_key(s, x) {
                            let j = choose|j: int| 0 <= j < s.len() && #[trigger] s[j].0@ == x;
                            assert(t[j].0@ == x);
                        }
                    }
                    assert forall|x: Seq<char>| has_key(t, x) && x != k implies #[trigger] entries_map(t)[x] == entries_map(s)[x] by {
                        let j = choose|j: int| 0 <= j < t.len() && #[trigger] t[j].0@ == x;
                        assert(t[j] == s[j]);
                        lemma_key_index(t, j);
                        lemma_key_index(s, j);
                    }
                    lemma_key_index(s, i as int);
                    assert(entries_map(t) =~= entries_map(s).insert(k, value));
                }
            },
            None => {
                self.entries.push((key, value));
                assert(self.spec_entries() =~= old(self).spec_entries().push((k, value)));
                proof {
                    let t = self.entries@;
                    let n = s.len() as int;
                    assert forall|a: int, b: int| 0 <= a < t.len() && 0 <= b < t.len() && #[trigger] t[a].0@ == #[trigger] t[b].0@ implies a == b by {
                        if a < n && b < n {
                            assert(t[a] == s[a]);
                            assert(t[b] == s[b]);
                        } else if a < n {
                            assert(t[a] == s[a]);
                            assert(s[a].0@ == k);
                        } else if b < n {
                            assert(t[b] == s[b]);
                            assert(s[b].0@ == k);
                        }
                    }
                    lemma_key_index(t, n);
                    assert forall|x: Seq<char>| #[trigger] has_key(t, x) <==> (has_key(s, x) || x == k) by {
                        if has_key(t, x) && x != k {
                            let j = choose|j: int| 0 <= j < t.len() && #[trigger] t[j].0@ == x;
                            assert(j < n);
                            assert(s[j] == t[j]);
                        }
                        if has_key(s, x) {
                            let j = choose|j: int| 0 <= j < s.len() && #[trigger] s[j].0@ == x;
                            assert(t[j] == s[j]);
                        }
                    }
                    assert forall|x: Seq<char>| has_key(s, x) && x != k implies #[trigger] entries_map(t)[x] == entries_map(s)[x] by {
                        let j = choose|j: int| 0 <= j < s.len() && #[trigger] s[j].0@ == x;
                        assert(t[j] == s[j]);
                        lemma_key_index(t, j);
                        lemma_key_index(s, j);
                    }
                    assert(entries_map(t) =~= entries_map(s).insert(k, value));
                }
            },
        }
    }

    /// How many settings there are.
    pub fn len(&self) -> (r: usize)
        ensures
            r == self.spec_entries().len(),
    {
        self.entries.len()
    }

    /// The value of `key`, if it is set.
    pub fn get(&self, key: &str) -> (r: Option<&V>)
        requires
            self.wf(),
        ensures
            match r {
                Some(v) => self@.contains_key(key@) && *v == self@[key@],
                None => !self@.contains_key(key@),
            },
    {
        match self.position(key) {
            Some(i) => {
                proof {
                    lemma_key_index(self.entries@, i as int);
                }
                Some(&self.entries[i].1)
            },
            None => None,
        }
    }
}

impl McpUtils {
    /// Puts each setting of `overlay` into `base`, in place of what `base` held
    /// under that name.
    pub fn merge_config<V>(base: &mut ConfigMap<V>, overlay: ConfigMap<V>)
        requires
            old(base).wf(),
            overlay.wf(),
        ensures
            final(base).wf(),
            final(base)@ == old(base)@.union_prefer_right(overlay@),
    {
        let ghost s = overlay.entries@;
        let ghost n = s.len() as int;
        let mut rest = overlay.entries;
        assert(s.subrange(n, n) =~= Seq::<(String, V)>::empty());
        assert(entries_map(s.subrange(n, n)) =~= Map::<Seq<char>, V>::empty());
        assert(old(base)@.union_prefer_right(Map::<Seq<char>, V>::empty()) =~= old(base)@);
        assert(rest@ =~= s.subrange(0, n));
        while rest.len() > 0
            invariant
                base.wf(),
                unique_keys(s),
                n == s.len(),
                rest.len() <= n,
                rest@ == s.subrange(0, rest.len() as int),
                base@ == old(base)@.union_prefer_right(entries_map(s.subrange(rest.len() as int, n))),
            decreases rest.len(),
        {
            let ghost m = rest.len() as int;
            let (key, value) = rest.pop().unwrap();
            assert(s[m - 1].0 == key && s[m - 1].1 == value);
            assert(rest@ =~= s.subrange(0, m - 1));
            proof {
                lemma_suffix_step(s, m);
            }
            let ghost before = base@;
            base.insert(key, value);
            assert(old(base)@.union_prefer_right(entries_map(s.subrange(m - 1, n))) =~= before.insert(
                s[m - 1].0@,
                s[m - 1].1,
            ));
        }
        assert(s.subrange(0, n) =~= s);
    }
}

/// Builds settings one by one.
pub struct ConfigBuilder<V> {
    config: ConfigMap<V>,
}

impl<V> View for ConfigBuilder<V> {
    type V = Map<Seq<char>, V>;

    closed spec fn view(&self) -> Map<Seq<char>, V> {
        self.config@
    }
}

impl<V> ConfigBuilder<V> {
    /// The settings are well formed.
    pub closed spec fn wf(&self) -> bool {
        self.config.wf()
    }

    /// No settings yet.
    pub fn new() -> (r: Self)
        ensures
            r.wf(),
            r@ == Map::<Seq<char>, V>::empty(),
    {
        ConfigBuilder { config: ConfigMap::new() }
    }

    /// Sets `key` to `value`, in place of what it held.
    pub fn set(self, key: &str, value: V) -> (r: Self)
        requires
            self.wf(),
        ensures
            r.wf(),
            r@ == self@.insert(key@, value),
    {
        let mut config = self.config;
        config.insert(String::from_str(key), value);
        ConfigBuilder { config }
    }

    /// The settings.
    pub fn build(self) -> (r: ConfigMap<V>)
        requires
            self.wf(),
        ensures
            r.wf(),
            r@ == self@,
    {
        self.config
    }
}

impl<V> Default for ConfigBuilder<V> {
    fn default() -> (r: Self)
        ensures
            r.wf(),
            r@ == Map::<Seq<char>, V>::empty(),
    {
        Self::new()
    }
}

/// The lines of the first `k` statistics: two spaces, the name, `: ` and the
/// value's JSON text.
pub open spec fn stats_lines(entries: Seq<(Seq<char>, String)>, k: int) -> Seq<char>
    decreases k,
{
    if k <= 0 {
        Seq::empty()
    } else {
        stats_lines(entries, k - 1) + "  "@ + entries[k - 1].0 + ": "@ + entries[k - 1].1@ + "\n"@
    }
}

impl McpUtils {
    /// The statistics of a service as text: a heading, then a line for each
    /// statistic, in the order they were set; each value is given as JSON text.
    pub fn format_service_stats(stats: &ConfigMap<String>) -> (r: String)
        ensures
            r@ == "服务统计信息:\n"@ + stats_lines(stats.spec_entries(), stats.spec_entries().len() as int),
    {
        let mut out = String::from_str("服务统计信息:\n");
        let ghost head = out@;
        let mut i: usize = 0;
        while i < stats.entries.len()
            invariant
                i <= stats.entries.len(),
                out@ == head + stats_lines(stats.spec_entries(), i as int),
            decreases stats.entries.len() - i,
        {
            out.append("  ");
            out.append(stats.entries[i].0.as_str());
            out.append(": ");
            out.append(stats.entries[i].1.as_str());
            out.append("\n");
            assert(stats.spec_entries()[i as int] == (stats.entries@[i as int].0@, stats.entries@[i as int].1));
            assert(out@ =~= head + stats_lines(stats.spec_entries(), i + 1));
            i = i + 1;
        }
        out
    }
}

} // verus!
