use crate::review::executor::opt_text;
use crate::review::types::ReviewConfig;
use crate::text::{digit_char, lemma_sorted_arrangement_unique, sort_texts, texts, texts_sorted};
use vstd::prelude::*;
use vstd::relations::injective_on;

verus! {

/// The MD5 digest of the UTF-8 bytes of a text.
pub uninterp spec fn md5_digest_of(data: Seq<char>) -> Seq<u8>;

/// `md5::compute` on the bytes of `data`: its sixteen-byte digest.
#[verifier::external_body]
fn md5_digest(data: &str) -> (r: Vec<u8>)
    ensures
        r@ == md5_digest_of(data@),
        r.len() == 16,
{
    md5::compute(data.as_bytes()).0.to_vec()
}

/// The JSON text that `serde_json` writes for the object with these members:
/// `diff`, `language` (null where absent), `security_scan`,
/// `deviation_analysis` and `issue_ids`.
pub uninterp spec fn cache_payload_json(
    diff: Seq<char>,
    language: Option<Seq<char>>,
    security_scan: bool,
    deviation_analysis: bool,
    issue_ids: Seq<Seq<char>>,
) -> Seq<char>;

/// `serde_json::Value::to_string` on the object that describes a review request.
#[verifier::external_body]
fn payload_json(
    diff: &str,
    language: &Option<String>,
    security_scan: bool,
    deviation_analysis: bool,
    issue_ids: &Vec<String>,
) -> (r: String)
    ensures
        r@ == cache_payload_json(diff@, opt_text(*language), security_scan, deviation_analysis, texts(issue_ids@)),
{
    let mut m = serde_json::Map::new();
    m.insert("diff".to_string(), serde_json::Value::from(diff));
    m.insert("language".to_string(), serde_json::Value::from(language.clone()));
    m.insert("security_scan".to_string(), serde_json::Value::Bool(security_scan));
    m.insert("deviation_analysis".to_string(), serde_json::Value::Bool(deviation_analysis));
    m.insert("issue_ids".to_string(), serde_json::Value::from(issue_ids.clone()));
    serde_json::Value::Object(m).to_string()
}

/// Two lower-case hexadecimal digits per byte, as `{:x}` writes a digest.
pub open spec fn bytes_hex(b: Seq<u8>) -> Seq<char>
    decreases b.len(),
{
    if b.len() == 0 {
        Seq::empty()
    } else {
        bytes_hex(b.drop_last()) + seq![digit_char((b.last() / 16) as nat), digit_char((b.last() % 16) as nat)]
    }
}

fn hex_digit(d: u8) -> (c: char)
    requires
        d < 16,
    ensures
        c == digit_char(d as nat),
{
    if d < 10 {
        ((d as u32 + '0' as u32) as u8) as char
    } else {
        ((d as u32 - 10 + 'a' as u32) as u8) as char
    }
}

/// The bytes in lower-case hexadecimal.
pub fn hex_of_bytes(b: &Vec<u8>) -> (r: String)
    ensures
        r@ == bytes_hex(b@),
{
    let mut out = String::new();
    let mut i: usize = 0;
    while i < b.len()
        invariant
            i <= b.len(),
            out@ == bytes_hex(b@.take(i as int)),
        decreases b.len() - i,
    {
        let x = b[i];
        crate::text::push_char(&mut out, hex_digit(x / 16));
        crate::text::push_char(&mut out, hex_digit(x % 16));
        assert(b@.take(i + 1).drop_last() =~= b@.take(i as int));
        i = i + 1;
        assert(out@ =~= bytes_hex(b@.take(i as int)));
    }
    assert(b@.take(i as int) =~= b@);
    out
}

/// The MD5 digest of `data`, in hexadecimal.
pub open spec fn md5_hex_of(data: Seq<char>) -> Seq<char> {
    bytes_hex(md5_digest_of(data))
}

/// Whether `s` is the texts `ids` arranged in lexicographic order.
pub open spec fn sorted_arrangement(s: Seq<Seq<char>>, ids: Seq<Seq<char>>) -> bool {
    s.to_multiset() == ids.to_multiset() && texts_sorted(s)
}

/// Whether `key` is the key under which a review of `diff` with settings
/// `cfg` is cached: the MD5 digest, in hexadecimal, of the JSON object naming
/// the digest of the changes, the output language, the security-scan and
/// deviation settings and the issue identifiers in lexicographic order.
pub open spec fn is_cache_key(key: Seq<char>, diff: Seq<char>, cfg: ReviewConfig) -> bool {
    exists|ids: Seq<Seq<char>>|
        sorted_arrangement(ids, texts(cfg.issue_ids@)) && key == md5_hex_of(
            #[trigger] cache_payload_json(
                md5_hex_of(diff),
                opt_text(cfg.language),
                cfg.security_scan,
                cfg.deviation_analysis,
                ids,
            ),
        )
}

/// The key under which a review is cached (see `is_cache_key`).
pub fn build_cache_key(diff: &str, cfg: &ReviewConfig) -> (r: String)
    ensures
        is_cache_key(r@, diff@, *cfg),
{
    let diff_hash = hex_of_bytes(&md5_digest(diff));
    let ids = sort_texts(&cfg.issue_ids);
    let payload = payload_json(diff_hash.as_str(), &cfg.language, cfg.security_scan, cfg.deviation_analysis, &ids);
    let key = hex_of_bytes(&md5_digest(payload.as_str()));
    assert(sorted_arrangement(texts(ids@), texts(cfg.issue_ids@)));
    assert(diff_hash@ == md5_hex_of(diff@));
    assert(key@ == md5_hex_of(
        cache_payload_json(md5_hex_of(diff@), opt_text(cfg.language), cfg.security_scan, cfg.deviation_analysis, texts(ids@)),
    ));
    key
}

/// The cache key does not depend on the order in which the issues are named:
/// two requests for the same changes, with the same language, scan and
/// deviation settings and the same issues in any order, share their key.
pub proof fn lemma_cache_key_ignores_issue_order(
    k1: Seq<char>,
    k2: Seq<char>,
    diff: Seq<char>,
    c1: ReviewConfig,
    c2: ReviewConfig,
)
    requires
        is_cache_key(k1, diff, c1),
        is_cache_key(k2, diff, c2),
        opt_text(c1.language) == opt_text(c2.language),
        c1.security_scan == c2.security_scan,
        c1.deviation_analysis == c2.deviation_analysis,
        texts(c1.issue_ids@).to_multiset() == texts(c2.issue_ids@).to_multiset(),
    ensures
        k1 == k2,
{
    let ids1 = choose|ids: Seq<Seq<char>>|
        sorted_arrangement(ids, texts(c1.issue_ids@)) && k1 == md5_hex_of(
            #[trigger] cache_payload_json(md5_hex_of(diff), opt_text(c1.language), c1.security_scan, c1.deviation_analysis, ids),
        );
    let ids2 = choose|ids: Seq<Seq<char>>|
        sorted_arrangement(ids, texts(c2.issue_ids@)) && k2 == md5_hex_of(
            #[trigger] cache_payload_json(md5_hex_of(diff), opt_text(c2.language), c2.security_scan, c2.deviation_analysis, ids),
        );
    lemma_sorted_arrangement_unique(ids1, ids2);
}

/// The name of the file that holds the review cached under `key`.
pub open spec fn cache_file_name_of(key: Seq<char>) -> Seq<char> {
    "review_"@ + key + ".json"@
}

/// The name of the file that holds the review cached under `key`.
pub fn cache_file_name(key: &str) -> (r: String)
    ensures
        r@ == cache_file_name_of(key@),
{
    let mut name = String::from_str("review_");
    name.append(key);
    name.append(".json");
    name
}

/// How long a cached review stays valid, in seconds.
pub const CACHE_MAX_AGE_SECONDS: u64 = 3600;

/// How many cached reviews are kept.
pub const CACHE_MAX_FILES: usize = 100;

/// Number of the entries that come before entry `i` when the entries are put in
/// order of modification time, earlier first, ties kept in their given order.
pub open spec fn age_rank(times: Seq<u128>, i: int) -> nat {
    Set::new(|j: int| 0 <= j < times.len() && (times[j] < times[i] || (times[j] == times[i] && j < i))).len()
}

/// Whether entry `i` is removed when at most `max_count` of the entries
/// (by modification time) may stay: the oldest ones go.
pub open spec fn removed_entry(times: Seq<u128>, max_count: nat, i: int) -> bool {
    times.len() > max_count && age_rank(times, i) < times.len() - max_count
}

/// The entries that come before entry `i` (see `age_rank`).
pub open spec fn earlier_entries(times: Seq<u128>, i: int) -> Set<int> {
    Set::new(|j: int| 0 <= j < times.len() && (times[j] < times[i] || (times[j] == times[i] && j < i)))
}

proof fn lemma_rank_bounds(times: Seq<u128>, i: int)
    requires
        0 <= i < times.len(),
    ensures
        earlier_entries(times, i).finite(),
        age_rank(times, i) == earlier_entries(times, i).len(),
        age_rank(times, i) < times.len(),
{
    let d = vstd::set_lib::set_int_range(0, times.len() as int);
    vstd::set_lib::lemma_int_range(0, times.len() as int);
    assert(earlier_entries(times, i).subset_of(d.remove(i)));
    vstd::set_lib::lemma_len_subset(earlier_entries(times, i), d.remove(i));
    assert(earlier_entries(times, i) =~= Set::new(
        |j: int| 0 <= j < times.len() && (times[j] < times[i] || (times[j] == times[i] && j < i)),
    ));
}

proof fn lemma_rank_increases(times: Seq<u128>, i: int, j: int)
    requires
        0 <= i < times.len(),
        0 <= j < times.len(),
        times[i] < times[j] || (times[i] == times[j] && i < j),
    ensures
        age_rank(times, i) < age_rank(times, j),
{
    lemma_rank_bounds(times, i);
    lemma_rank_bounds(times, j);
    let bi = earlier_entries(times, i);
    let bj = earlier_entries(times, j);
    assert(!bi.contains(i));
    assert(bi.insert(i).subset_of(bj));
    vstd::set_lib::lemma_len_subset(bi.insert(i), bj);
}

/// The rank of each entry, as a function.
pub open spec fn rank_fn(times: Seq<u128>) -> spec_fn(int) -> int {
    |i: int| age_rank(times, i) as int
}

proof fn lemma_rank_injective(times: Seq<u128>)
    ensures
        injective_on(rank_fn(times), vstd::set_lib::set_int_range(0, times.len() as int)),
{
    let d = vstd::set_lib::set_int_range(0, times.len() as int);
    assert forall|a: int, b: int|
        d.contains(a) && d.contains(b) && #[trigger] rank_fn(times)(a) == #[trigger] rank_fn(times)(b) implies a
        == b by {
        if a != b {
            if times[a] < times[b] || (times[a] == times[b] && a < b) {
                lemma_rank_increases(times, a, b);
            } else {
                lemma_rank_increases(times, b, a);
            }
        }
    }
}

/// Of `n` entries, exactly `k` (for `k` up to `n`) are among the `k` oldest.
pub proof fn lemma_oldest_count(times: Seq<u128>, k: int)
    requires
        0 <= k <= times.len(),
    ensures
        Set::new(|i: int| 0 <= i < times.len() && age_rank(times, i) < k).finite(),
        Set::new(|i: int| 0 <= i < times.len() && age_rank(times, i) < k).len() == k,
{
    let n = times.len() as int;
    let d = vstd::set_lib::set_int_range(0, n);
    let f = rank_fn(times);
    vstd::set_lib::lemma_int_range(0, n);
    lemma_rank_injective(times);
    let img = d.map(f);
    vstd::set_lib::lemma_map_size(d, img, f);
    assert forall|v: int| img.contains(v) implies d.contains(v) by {
        let i = choose|i: int| d.contains(i) && v == f(i);
        lemma_rank_bounds(times, i);
    }
    vstd::set_lib::lemma_subset_equality(img, d);
    let sk = Set::new(|i: int| 0 <= i < times.len() && age_rank(times, i) < k);
    let rk = vstd::set_lib::set_int_range(0, k);
    vstd::set_lib::lemma_int_range(0, k);
    assert(sk.subset_of(d));
    vstd::set_lib::lemma_len_subset(sk, d);
    assert forall|v: int| #[trigger] rk.contains(v) implies sk.map(f).contains(v) by {
        assert(img.contains(v));
        let i = choose|i: int| d.contains(i) && v == f(i);
        assert(sk.contains(i));
    }
    assert forall|v: int| #[trigger] sk.map(f).contains(v) implies rk.contains(v) by {
        let i = choose|i: int| sk.contains(i) && v == f(i);
    }
    assert(sk.map(f) =~= rk);
    assert forall|a: int, b: int| sk.contains(a) && sk.contains(b) && #[trigger] f(a) == #[trigger] f(b) implies a
        == b by {
        assert(d.contains(a) && d.contains(b));
    }
    vstd::set_lib::lemma_map_size(sk, rk, f);
}

spec fn rank_prefix(times: Seq<u128>, i: int, k: int) -> Set<int> {
    Set::new(|j: int| 0 <= j < k && (times[j] < times[i] || (times[j] == times[i] && j < i)))
}

proof fn lemma_rank_prefix_step(times: Seq<u128>, i: int, k: int)
    requires
        0 <= k < times.len(),
    ensures
        rank_prefix(times, i, k + 1) == (if times[k] < times[i] || (times[k] == times[i] && k < i) {
            rank_prefix(times, i, k).insert(k)
        } else {
            rank_prefix(times, i, k)
        }),
{
    assert(rank_prefix(times, i, k + 1) =~= (if times[k] < times[i] || (times[k] == times[i] && k < i) {
        rank_prefix(times, i, k).insert(k)
    } else {
        rank_prefix(times, i, k)
    }));
}

proof fn lemma_rank_prefix_finite(times: Seq<u128>, i: int, k: int)
    requires
        0 <= k <= times.len(),
    ensures
        rank_prefix(times, i, k).finite(),
        rank_prefix(times, i, k).len() <= k,
    decreases k,
{
    if k == 0 {
        assert(rank_prefix(times, i, 0) =~= Set::empty());
    } else {
        lemma_rank_prefix_finite(times, i, k - 1);
        lemma_rank_prefix_step(times, i, k - 1);
    }
}

fn rank_of(times: &Vec<u128>, i: usize) -> (r: usize)
    requires
        i < times.len(),
    ensures
        r == age_rank(times@, i as int),
{
    let mut count: usize = 0;
    let mut k: usize = 0;
    proof {
        assert(rank_prefix(times@, i as int, 0) =~= Set::empty());
    }
    while k < times.len()
        invariant
            k <= times.len(),
            i < times.len(),
            count == rank_prefix(times@, i as int, k as int).len(),
            count <= k,
        decreases times.len() - k,
    {
        proof {
            lemma_rank_prefix_step(times@, i as int, k as int);
            lemma_rank_prefix_finite(times@, i as int, k as int);
        }
        if times[k] < times[i] || (times[k] == times[i] && k < i) {
            count = count + 1;
        }
        k = k + 1;
    }
    assert(rank_prefix(times@, i as int, times.len() as int) =~= Set::new(
        |j: int|
            0 <= j < times@.len() && (times@[j] < times@[i as int] || (times@[j] == times@[i as int] && j < i)),
    ));
    count
}

/// The cache files to delete, by position, given their modification times:
/// where more than `max_count` are there, the oldest go, so that `max_count` stay.
pub fn stale_cache_entries(times: &Vec<u128>, max_count: usize) -> (r: Vec<usize>)
    ensures
        forall|k: int| 0 <= k < r.len() ==> #[trigger] r@[k] < times.len() && removed_entry(times@, max_count as nat, r@[k] as int),
        forall|i: int| 0 <= i < times.len() && removed_entry(times@, max_count as nat, i) ==> r@.contains(i as usize),
        forall|a: int, b: int| 0 <= a < b < r.len() ==> r@[a] < r@[b],
        times.len() > max_count ==> r.len() == times.len() - max_count,
        times.len() <= max_count ==> r.len() == 0,
{
    let mut out: Vec<usize> = Vec::new();
    if times.len() <= max_count {
        return out;
    }
    let to_remove = times.len() - max_count;
    let mut i: usize = 0;
    while i < times.len()
        invariant
            i <= times.len(),
            times.len() > max_count,
            to_remove == times.len() - max_count,
            forall|k: int| 0 <= k < out.len() ==> #[trigger] out@[k] < i && removed_entry(times@, max_count as nat, out@[k] as int),
            forall|j: int| 0 <= j < i && removed_entry(times@, max_count as nat, j) ==> out@.contains(j as usize),
            forall|a: int, b: int| 0 <= a < b < out.len() ==> out@[a] < out@[b],
        decreases times.len() - i,
    {
        let rank = rank_of(times, i);
        let ghost before = out@;
        if rank < to_remove {
            out.push(i);
            assert(out@[out.len() - 1] == i);
        }
        proof {
            assert forall|j: int| 0 <= j < i + 1 && removed_entry(times@, max_count as nat, j) implies out@.contains(
                j as usize,
            ) by {
                if j < i {
                    let k = choose|k: int| 0 <= k < before.len() && before[k] == j as usize;
                    assert(out@[k] == j as usize);
                } else {
                    assert(out@[out.len() - 1] == i);
                }
            }
        }
        i = i + 1;
    }
    proof {
        let k = times.len() - max_count;
        lemma_oldest_count(times@, k as int);
        let sk = Set::new(|j: int| 0 <= j < times.len() && age_rank(times@, j) < k);
        let oi = out@.map_values(|x: usize| x as int);
        assert(oi.no_duplicates()) by {
            assert forall|a: int, b: int| 0 <= a < oi.len() && 0 <= b < oi.len() && a != b implies oi[a] != oi[b] by {
                if a < b {
                    assert(out@[a] < out@[b]);
                } else {
                    assert(out@[b] < out@[a]);
                }
            }
        }
        assert forall|j: int| #[trigger] sk.contains(j) implies oi.to_set().contains(j) by {
            assert(removed_entry(times@, max_count as nat, j));
            assert(out@.contains(j as usize));
            let p = choose|p: int| 0 <= p < out.len() && out@[p] == j as usize;
            assert(oi[p] == j);
        }
        assert forall|j: int| #[trigger] oi.to_set().contains(j) implies sk.contains(j) by {
            let p = choose|p: int| 0 <= p < oi.len() && oi[p] == j;
            assert(removed_entry(times@, max_count as nat, out@[p] as int));
        }
        assert(oi.to_set() =~= sk);
        oi.unique_seq_to_set();
    }
    out
}

} // verus!
