use crate::text::{has_prefix, str_starts_with, texts};
use vstd::prelude::*;

verus! {

/// What is recorded about a downloaded resource.
pub struct ResourceMetadata {
    /// Version of the resource.
    pub version: String,
    /// Where it was fetched from.
    pub source_url: String,
    /// When it was last updated, in seconds since the Unix epoch.
    pub last_updated: u64,
    /// Checksum of the resource, if known.
    pub checksum: Option<String>,
}

/// Settings of the resource manager.
pub struct ResourceConfig {
    /// Where resources come from.
    pub sources: SourcesConfig,
    /// Network settings.
    pub network: NetworkConfig,
    /// Cache settings.
    pub cache: CacheConfig,
}

/// Where resources come from.
pub struct SourcesConfig {
    /// Address of the configuration file.
    pub config_url: String,
    /// Address of the rules repository.
    pub rules_url: String,
    /// Address of the Tree-sitter grammars repository.
    pub tree_sitter_url: String,
    /// Other sources to try.
    pub fallback_sources: Vec<String>,
    /// Seconds between checks for updates.
    pub update_check_interval: u64,
    /// Whether to update on its own.
    pub auto_update: bool,
}

/// Network settings.
pub struct NetworkConfig {
    /// Proxy to use (empty for none).
    pub proxy: String,
    /// Timeout in seconds.
    pub timeout: u64,
    /// How often to retry.
    pub retry_times: u32,
    /// Whether to work offline.
    pub offline_mode: bool,
}

/// Cache settings.
pub struct CacheConfig {
    /// Whether the cache is used.
    pub enabled: bool,
    /// Directory of the cache.
    pub path: String,
    /// Largest size of the cache.
    pub max_size: String,
    /// Seconds an entry lives.
    pub ttl: u64,
}

/// The sources used where the configuration names none.
pub fn default_sources() -> (r: SourcesConfig)
    ensures
        r.config_url@ == "https://raw.githubusercontent.com/nehcuh/gitai/main/assets/config.enhanced.toml"@,
        r.rules_url@ == "https://github.com/nehcuh/gitai-rules.git"@,
        r.tree_sitter_url@ == "https://github.com/nehcuh/gitai-tree-sitter.git"@,
        r.fallback_sources.len() == 0,
        r.update_check_interval == 86400,
        !r.auto_update,
{
    SourcesConfig {
        config_url: String::from_str("https://raw.githubusercontent.com/nehcuh/gitai/main/assets/config.enhanced.toml"),
        rules_url: String::from_str("https://github.com/nehcuh/gitai-rules.git"),
        tree_sitter_url: String::from_str("https://github.com/nehcuh/gitai-tree-sitter.git"),
        fallback_sources: Vec::new(),
        update_check_interval: 86400,
        auto_update: false,
    }
}

/// The network settings used where the configuration gives none.
pub fn default_network() -> (r: NetworkConfig)
    ensures
        r.proxy@.len() == 0,
        r.timeout == 30,
        r.retry_times == 3,
        !r.offline_mode,
{
    NetworkConfig { proxy: String::new(), timeout: 30, retry_times: 3, offline_mode: false }
}

/// The cache settings used where the configuration gives none.
pub fn default_cache() -> (r: CacheConfig)
    ensures
        r.enabled,
        r.path@ == "~/.cache/gitai"@,
        r.max_size@ == "1GB"@,
        r.ttl == 604800,
{
    CacheConfig {
        enabled: true,
        path: String::from_str("~/.cache/gitai"),
        max_size: String::from_str("1GB"),
        ttl: 604800,
    }
}

/// The settings made of the sections a configuration file has, each missing one
/// taken from its defaults.
pub fn resource_config_from_sections(
    sources: Option<SourcesConfig>,
    network: Option<NetworkConfig>,
    cache: Option<CacheConfig>,
) -> (r: ResourceConfig)
    ensures
        sources matches Some(s) ==> r.sources == s,
        network matches Some(n) ==> r.network == n,
        cache matches Some(c) ==> r.cache == c,
        sources is None ==> r.sources.update_check_interval == 86400 && !r.sources.auto_update,
        network is None ==> r.network.timeout == 30 && r.network.retry_times == 3 && !r.network.offline_mode,
        cache is None ==> r.cache.enabled && r.cache.ttl == 604800 && r.cache.path@ == "~/.cache/gitai"@,
{
    let sources = match sources {
        Some(s) => s,
        None => default_sources(),
    };
    let network = match network {
        Some(n) => n,
        None => default_network(),
    };
    let cache = match cache {
        Some(c) => c,
        None => default_cache(),
    };
    ResourceConfig { sources, network, cache }
}

/// Whether a leading `~` of `path` may stand for the home directory: it is the
/// whole path or is followed by `/`, or (on Windows only) by `\`.
pub open spec fn home_relative(path: Seq<char>) -> bool {
    has_prefix(path, "~"@) && (path.len() == 1 || path[1] == '/' || path[1] == '\\')
}

/// `shellexpand::tilde`: a leading `~` that is the whole path or followed by
/// `/` (or, on Windows, by `\`) becomes the home directory, where one is known;
/// any other path is kept. Which home directory comes in depends on the
/// environment, and whether `~\` is expanded depends on the platform; neither
/// is stated: such a path comes back either unchanged or expanded.
#[verifier::external_body]
fn expand_tilde(path: &str) -> (r: String)
    ensures
        !home_relative(path@) ==> r@ == path@,
        home_relative(path@) ==> (r@ == path@ || exists|home: Seq<char>| r@ == home + path@.skip(1)),
{
    shellexpand::tilde(path).to_string()
}

/// The directory the cache lives in: its configured path with the home
/// directory put in for a leading `~`.
pub fn resource_cache_dir(cache: &CacheConfig) -> (r: String)
    ensures
        !home_relative(cache.path@) ==> r@ == cache.path@,
        home_relative(cache.path@) ==> (r@ == cache.path@ || exists|home: Seq<char>| r@ == home + cache.path@.skip(1)),
{
    expand_tilde(cache.path.as_str())
}

/// Whether a resource is due for an update: updates are on and either nothing
/// records when it was last updated, or more than the check interval has
/// passed since then.
pub open spec fn update_due(auto_update: bool, last_updated: Option<u64>, now: u64, interval: u64) -> bool {
    auto_update && match last_updated {
        None => true,
        Some(t) => now - t > interval,
    }
}

/// Whether a resource is due for an update at time `now` (see `update_due`),
/// given when it was last updated, where that is recorded.
pub fn should_update_at(auto_update: bool, last_updated: Option<u64>, now: u64, interval: u64) -> (r: bool)
    requires
        last_updated matches Some(t) ==> t <= now,
    ensures
        r == update_due(auto_update, last_updated, now, interval),
{
    if !auto_update {
        return false;
    }
    match last_updated {
        None => true,
        Some(t) => now - t > interval,
    }
}

/// Whether to download a resource before looking at what is cached: an update
/// is due and the manager is not offline.
pub fn refresh_first(update_due: bool, offline_mode: bool) -> (r: bool)
    ensures
        r == (update_due && !offline_mode),
{
    update_due && !offline_mode
}

/// What follows when the rules are not in the cache: they are downloaded, or,
/// offline, the request fails.
pub fn on_missing_rules(offline_mode: bool) -> (r: Result<(), String>)
    ensures
        offline_mode ==> (r matches Err(e) && e@ == "No cached rules found in offline mode"@),
        !offline_mode ==> r is Ok,
{
    if offline_mode {
        Err(String::from_str("No cached rules found in offline mode"))
    } else {
        Ok(())
    }
}

/// What follows when the grammar of `language` is not in the cache: it is
/// downloaded, or, offline, the request fails.
pub fn on_missing_grammar(offline_mode: bool, language: &str) -> (r: Result<(), String>)
    ensures
        offline_mode ==> (r matches Err(e) && e@ == "No cached grammar found for "@ + language@
            + " in offline mode"@),
        !offline_mode ==> r is Ok,
{
    if offline_mode {
        let mut e = String::from_str("No cached grammar found for ");
        e.append(language);
        e.append(" in offline mode");
        Err(e)
    } else {
        Ok(())
    }
}

/// Where the rules are fetched from, in the order tried: the primary source,
/// then each fallback source's `/rules`.
pub open spec fn rules_sources_of(primary: Seq<char>, fallbacks: Seq<Seq<char>>) -> Seq<Seq<char>> {
    seq![primary] + fallbacks.map_values(|f: Seq<char>| f + "/rules"@)
}

/// The sources of the rules, in the order they are tried (see
/// `rules_sources_of`).
pub fn rules_sources(primary: &str, fallbacks: &Vec<String>) -> (r: Vec<String>)
    ensures
        texts(r@) == rules_sources_of(primary@, texts(fallbacks@)),
{
    let mut out: Vec<String> = Vec::new();
    out.push(String::from_str(primary));
    let mut i: usize = 0;
    while i < fallbacks.len()
        invariant
            i <= fallbacks.len(),
            texts(out@) == seq![primary@] + texts(fallbacks@).take(i as int).map_values(|f: Seq<char>| f + "/rules"@),
        decreases fallbacks.len() - i,
    {
        let ghost before = texts(out@);
        let mut u = fallbacks[i].clone();
        u.append("/rules");
        out.push(u);
        assert(texts(out@) =~= before.push(fallbacks@[i as int]@ + "/rules"@));
        assert(texts(fallbacks@).take(i + 1).map_values(|f: Seq<char>| f + "/rules"@) =~= texts(fallbacks@).take(
            i as int,
        ).map_values(|f: Seq<char>| f + "/rules"@).push(fallbacks@[i as int]@ + "/rules"@));
        i = i + 1;
    }
    assert(texts(fallbacks@).take(fallbacks.len() as int) =~= texts(fallbacks@));
    out
}

/// Where the grammar of `language` is fetched from: the grammar source, `/`
/// and the language.
pub fn grammar_url(tree_sitter_url: &str, language: &str) -> (r: String)
    ensures
        r@ == tree_sitter_url@ + "/"@ + language@,
{
    let mut u = String::from_str(tree_sitter_url);
    u.append("/");
    u.append(language);
    u
}

/// The languages whose grammars an update of all resources fetches.
pub open spec fn update_languages_seq() -> Seq<Seq<char>> {
    seq!["rust"@, "python"@, "javascript"@, "go"@, "java"@]
}

/// The languages whose grammars an update of all resources fetches, in order;
/// none in offline mode, where nothing is updated.
pub fn update_languages(offline_mode: bool) -> (r: Vec<String>)
    ensures
        offline_mode ==> r.len() == 0,
        !offline_mode ==> texts(r@) == update_languages_seq(),
{
    let mut out: Vec<String> = Vec::new();
    if offline_mode {
        return out;
    }
    out.push(String::from_str("rust"));
    out.push(String::from_str("python"));
    out.push(String::from_str("javascript"));
    out.push(String::from_str("go"));
    out.push(String::from_str("java"));
    assert(texts(out@) =~= update_languages_seq());
    out
}

/// Whether a cached resource last updated at `last_updated` has outlived the
/// cache's time to live `ttl` at time `now`.
pub fn cache_entry_expired(now: u64, last_updated: u64, ttl: u64) -> (r: bool)
    requires
        last_updated <= now,
    ensures
        r == (now - last_updated > ttl),
{
    now - last_updated > ttl
}

/// Whether a directory with the entries `names` counts as empty: every entry
/// is hidden (its name starts with `.`).
pub fn is_dir_empty(names: &Vec<String>) -> (r: bool)
    ensures
        r == forall|i: int| 0 <= i < names.len() ==> has_prefix(#[trigger] names@[i]@, "."@),
{
    let mut i: usize = 0;
    while i < names.len()
        invariant
            i <= names.len(),
            forall|j: int| 0 <= j < i ==> has_prefix(#[trigger] names@[j]@, "."@),
        decreases names.len() - i,
    {
        if !str_starts_with(names[i].as_str(), ".") {
            return false;
        }
        i = i + 1;
    }
    true
}

} // verus!
