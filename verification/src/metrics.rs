use crate::mcp::dependency_graph::lemma_distinct_below;
use crate::text::{chars_of, push_char, same_text};
use vstd::prelude::*;

verus! {

/// Direction in which a quality measure moves.
#[derive(Debug, Clone, Copy, PartialEq, Eq, Structural)]
pub enum Trend {
    /// Getting better.
    Improving,
    /// Not moving.
    Stable,
    /// Getting worse.
    Degrading,
    /// Some better, some worse.
    Mixed,
}

/// How much a finding matters.
#[derive(Debug, Clone, Copy, PartialEq, Eq, Structural)]
pub enum Significance {
    /// Critical.
    Critical,
    /// High.
    High,
    /// Medium.
    Medium,
    /// Low.
    Low,
}

/// Writes reports on how quality moves over time.
pub struct TrendVisualizer;

impl TrendVisualizer {
    /// A visualizer.
    pub fn new() -> (r: Self)
        ensures
            r == TrendVisualizer,
    {
        TrendVisualizer
    }
}

/// `c` with `/`, `\` and `:` made `_`.
pub open spec fn safe_branch_char(c: char) -> char {
    if c == '/' || c == '\\' || c == ':' {
        '_'
    } else {
        c
    }
}

/// The name of the file that holds the snapshots of `branch`: the branch name
/// with `/`, `\` and `:` made `_`, between `snapshots_` and `.jsonl`.
pub open spec fn snapshot_file_name_of(branch: Seq<char>) -> Seq<char> {
    "snapshots_"@ + branch.map_values(|c: char| safe_branch_char(c)) + ".jsonl"@
}

/// The name of the file that holds the snapshots of `branch`.
pub fn snapshot_file_name(branch: &str) -> (r: String)
    ensures
        r@ == snapshot_file_name_of(branch@),
{
    let cs = chars_of(branch);
    let mut out = String::from_str("snapshots_");
    let ghost head = out@;
    let mut i: usize = 0;
    while i < cs.len()
        invariant
            i <= cs.len(),
            cs@ == branch@,
            out@ == head + cs@.take(i as int).map_values(|c: char| safe_branch_char(c)),
        decreases cs.len() - i,
    {
        let c = cs[i];
        let d = if c == '/' || c == '\\' || c == ':' {
            '_'
        } else {
            c
        };
        push_char(&mut out, d);
        i = i + 1;
        assert(cs@.take(i as int).map_values(|c: char| safe_branch_char(c)) =~= cs@.take(i - 1).map_values(
            |c: char| safe_branch_char(c),
        ).push(d));
    }
    assert(cs@.take(i as int) =~= cs@);
    out.append(".jsonl");
    out
}

/// Positions of the snapshots taken after `cutoff`, in order: those a cleanup keeps.
pub open spec fn kept_snapshots(times: Seq<i64>, cutoff: i64) -> Seq<usize>
    decreases times.len(),
{
    if times.len() == 0 {
        Seq::empty()
    } else if times.last() > cutoff {
        kept_snapshots(times.drop_last(), cutoff).push((times.len() - 1) as usize)
    } else {
        kept_snapshots(times.drop_last(), cutoff)
    }
}

/// Positions of the snapshots a cleanup keeps: those taken after `cutoff`.
pub fn snapshots_to_keep(times: &Vec<i64>, cutoff: i64) -> (r: Vec<usize>)
    ensures
        r@ == kept_snapshots(times@, cutoff),
{
    let mut out: Vec<usize> = Vec::new();
    let mut i: usize = 0;
    while i < times.len()
        invariant
            i <= times.len(),
            out@ == kept_snapshots(times@.take(i as int), cutoff),
        decreases times.len() - i,
    {
        assert(times@.take(i + 1).drop_last() =~= times@.take(i as int));
        if times[i] > cutoff {
            out.push(i);
        }
        i = i + 1;
    }
    assert(times@.take(i as int) =~= times@);
    out
}

/// Whether snapshot `a` comes before snapshot `b`: taken earlier, or at the same
/// time and listed earlier.
pub open spec fn comes_before(times: Seq<i64>, a: int, b: int) -> bool {
    times[a] < times[b] || (times[a] == times[b] && a < b)
}

/// Whether `order` lists every snapshot once, earliest first, those taken at
/// the same time in the order they were listed: what a stable sort by time gives.
pub open spec fn time_order(times: Seq<i64>, order: Seq<usize>) -> bool {
    &&& order.len() == times.len()
    &&& forall|p: int| 0 <= p < order.len() ==> #[trigger] order[p] < times.len()
    &&& forall|p: int, q: int| 0 <= p < q < order.len() ==> comes_before(times, order[p] as int, order[q] as int)
}

/// The snapshots in order of time (see `time_order`).
pub fn order_by_time(times: &Vec<i64>) -> (r: Vec<usize>)
    ensures
        time_order(times@, r@),
{
    let n = times.len();
    let mut rest: Vec<usize> = Vec::new();
    let mut i: usize = 0;
    while i < n
        invariant
            i <= n,
            n == times.len(),
            rest.len() == i,
            forall|k: int| 0 <= k < i ==> #[trigger] rest@[k] == k,
        decreases n - i,
    {
        rest.push(i);
        i = i + 1;
    }
    let mut out: Vec<usize> = Vec::new();
    while rest.len() > 0
        invariant
            n == times.len(),
            out.len() + rest.len() == n,
            forall|p: int| 0 <= p < out.len() ==> #[trigger] out@[p] < n,
            forall|p: int| 0 <= p < rest.len() ==> #[trigger] rest@[p] < n,
            forall|p: int, q: int|
                0 <= p < q < out.len() ==> comes_before(times@, out@[p] as int, out@[q] as int),
            forall|p: int, q: int|
                0 <= p < out.len() && 0 <= q < rest.len() ==> comes_before(
                    times@,
                    #[trigger] out@[p] as int,
                    #[trigger] rest@[q] as int,
                ),
            forall|p: int, q: int| 0 <= p < q < rest.len() ==> rest@[p] != rest@[q],
        decreases rest.len(),
    {
        let mut m: usize = 0;
        let mut k: usize = 1;
        while k < rest.len()
            invariant
                n == times.len(),
                0 <= m < rest.len(),
                1 <= k <= rest.len(),
                forall|p: int| 0 <= p < rest.len() ==> #[trigger] rest@[p] < n,
                forall|q: int| 0 <= q < k && q != m ==> comes_before(times@, rest@[m as int] as int, #[trigger] rest@[q] as int),
                forall|p: int, q: int| 0 <= p < q < rest.len() ==> rest@[p] != rest@[q],
            decreases rest.len() - k,
        {
            let a = rest[m];
            let b = rest[k];
            if times[b] < times[a] || (times[b] == times[a] && b < a) {
                m = k;
            }
            k = k + 1;
        }
        let ghost before_rest = rest@;
        let ghost before_out = out@;
        let x = rest.remove(m);
        out.push(x);
        proof {
            assert forall|p: int, q: int| 0 <= p < out.len() && 0 <= q < rest.len() implies comes_before(
                times@,
                #[trigger] out@[p] as int,
                #[trigger] rest@[q] as int,
            ) by {
                let qq = if q < m { q } else { q + 1 };
                assert(rest@[q] == before_rest[qq]);
                if p < out.len() - 1 {
                    assert(out@[p] == before_out[p]);
                } else {
                    assert(out@[p] == before_rest[m as int]);
                    assert(qq != m);
                }
            }
            assert forall|p: int, q: int| 0 <= p < q < out.len() implies comes_before(
                times@,
                out@[p] as int,
                out@[q] as int,
            ) by {
                if q < out.len() - 1 {
                    assert(out@[p] == before_out[p]);
                    assert(out@[q] == before_out[q]);
                } else {
                    assert(out@[p] == before_out[p]);
                    assert(out@[q] == before_rest[m as int]);
                }
            }
            assert forall|p: int, q: int| 0 <= p < q < rest.len() implies rest@[p] != rest@[q] by {
                let pp = if p < m { p } else { p + 1 };
                let qq = if q < m { q } else { q + 1 };
                assert(rest@[p] == before_rest[pp]);
                assert(rest@[q] == before_rest[qq]);
            }
        }
    }
    out
}

/// Which places of the ordered snapshots stay when each commit keeps only its
/// first snapshot: place `p` stays when no earlier place has its commit.
pub open spec fn first_of_commit(order: Seq<usize>, commits: Seq<Seq<char>>, p: int) -> bool {
    forall|q: int| 0 <= q < p ==> commits[order[q] as int] != commits[order[p] as int]
}

/// The first `k` ordered snapshots with every commit kept once, at its first
/// snapshot.
pub open spec fn dedup_by_commit(order: Seq<usize>, commits: Seq<Seq<char>>, k: int) -> Seq<usize>
    decreases k,
{
    if k <= 0 {
        Seq::empty()
    } else if first_of_commit(order, commits, k - 1) {
        dedup_by_commit(order, commits, k - 1).push(order[k - 1])
    } else {
        dedup_by_commit(order, commits, k - 1)
    }
}

/// What is kept of the first `k` ordered snapshots comes from among them, in
/// their order.
pub proof fn lemma_dedup_from(order: Seq<usize>, commits: Seq<Seq<char>>, k: int)
    requires
        0 <= k <= order.len(),
    ensures
        forall|j: int|
            0 <= j < dedup_by_commit(order, commits, k).len() ==> exists|q: int|
                0 <= q < k && #[trigger] dedup_by_commit(order, commits, k)[j] == order[q]
                    && first_of_commit(order, commits, q),
    decreases k,
{
    if k > 0 {
        lemma_dedup_from(order, commits, k - 1);
        let d = dedup_by_commit(order, commits, k - 1);
        let e = dedup_by_commit(order, commits, k);
        assert forall|j: int| 0 <= j < e.len() implies exists|q: int|
            0 <= q < k && #[trigger] e[j] == order[q] && first_of_commit(order, commits, q) by {
            if j < d.len() {
                assert(e[j] == d[j]);
                let q = choose|q: int| 0 <= q < k - 1 && d[j] == order[q] && first_of_commit(order, commits, q);
                assert(e[j] == order[q]);
            } else {
                assert(e[j] == order[k - 1]);
            }
        }
    }
}

/// Merged snapshots hold each commit at most once: no two kept snapshots share
/// a commit.
pub proof fn lemma_merged_commits_distinct(order: Seq<usize>, commits: Seq<Seq<char>>, k: int)
    requires
        0 <= k <= order.len(),
    ensures
        forall|i: int, j: int|
            0 <= i < j < dedup_by_commit(order, commits, k).len() ==> commits[dedup_by_commit(
                order,
                commits,
                k,
            )[i] as int] != commits[dedup_by_commit(order, commits, k)[j] as int],
    decreases k,
{
    if k > 0 {
        lemma_merged_commits_distinct(order, commits, k - 1);
        lemma_dedup_from(order, commits, k - 1);
        let d = dedup_by_commit(order, commits, k - 1);
        let e = dedup_by_commit(order, commits, k);
        if first_of_commit(order, commits, k - 1) {
            assert forall|i: int, j: int| 0 <= i < j < e.len() implies commits[e[i] as int] != commits[e[j] as int] by {
                assert(e[i] == d[i]);
                if j < d.len() {
                    assert(e[j] == d[j]);
                } else {
                    assert(e[j] == order[k - 1]);
                    let q = choose|q: int| 0 <= q < k - 1 && #[trigger] d[i] == order[q] && first_of_commit(order, commits, q);
                    assert(commits[order[q] as int] != commits[order[k - 1] as int]);
                }
            }
        }
    }
}

/// Merging loses no commit: each commit among the first `k` ordered snapshots
/// is that of a kept one.
pub proof fn lemma_merged_commits_kept(order: Seq<usize>, commits: Seq<Seq<char>>, k: int)
    requires
        0 <= k <= order.len(),
    ensures
        forall|q: int|
            #![trigger order[q]]
            0 <= q < k ==> exists|j: int|
                0 <= j < dedup_by_commit(order, commits, k).len() && commits[#[trigger] dedup_by_commit(
                    order,
                    commits,
                    k,
                )[j] as int] == commits[order[q] as int],
    decreases k,
{
    if k > 0 {
        lemma_merged_commits_kept(order, commits, k - 1);
        let d = dedup_by_commit(order, commits, k - 1);
        let e = dedup_by_commit(order, commits, k);
        assert forall|q: int| #![trigger order[q]] 0 <= q < k implies exists|j: int|
            0 <= j < e.len() && commits[#[trigger] e[j] as int] == commits[order[q] as int] by {
            if q < k - 1 {
                let j = choose|j: int| 0 <= j < d.len() && commits[#[trigger] d[j] as int] == commits[order[q] as int];
                assert(e[j] == d[j]);
            } else if first_of_commit(order, commits, k - 1) {
                assert(e[e.len() - 1] == order[k - 1]);
            } else {
                let q2 = choose|q2: int| #![trigger order[q2]] 0 <= q2 < k - 1 && commits[order[q2] as int] == commits[order[k - 1] as int];
                let j = choose|j: int| 0 <= j < d.len() && commits[#[trigger] d[j] as int] == commits[order[q2] as int];
                assert(e[j] == d[j]);
            }
        }
    }
}

/// What merging gives: snapshots of the input, in order of time, no two with
/// one commit, and every commit of the input kept.
pub open spec fn merged(times: Seq<i64>, commits: Seq<Seq<char>>, r: Seq<usize>) -> bool {
    &&& forall|j: int| 0 <= j < r.len() ==> #[trigger] r[j] < times.len()
    &&& forall|i: int, j: int| 0 <= i < j < r.len() ==> comes_before(times, #[trigger] r[i] as int, #[trigger] r[j] as int)
    &&& forall|i: int, j: int| 0 <= i < j < r.len() ==> commits[#[trigger] r[i] as int] != commits[#[trigger] r[j] as int]
    &&& forall|x: int|
        #![trigger commits[x]]
        0 <= x < times.len() ==> exists|j: int| 0 <= j < r.len() && commits[#[trigger] r[j] as int] == commits[x]
}

/// Merging snapshots in time order keeps each commit once: the kept snapshots
/// come in order of time, no two share a commit, and no commit is lost.
pub proof fn lemma_merge_law(times: Seq<i64>, commits: Seq<Seq<char>>, order: Seq<usize>)
    requires
        time_order(times, order),
        times.len() <= usize::MAX,
    ensures
        merged(times, commits, dedup_by_commit(order, commits, order.len() as int)),
{
    let n = order.len() as int;
    let d = dedup_by_commit(order, commits, n);
    lemma_dedup_from(order, commits, n);
    lemma_merged_commits_distinct(order, commits, n);
    lemma_merged_commits_kept(order, commits, n);
    lemma_dedup_sorted(times, order, commits, n);
    assert forall|j: int| 0 <= j < d.len() implies #[trigger] d[j] < times.len() by {
        let q = choose|q: int| 0 <= q < n && #[trigger] d[j] == order[q] && first_of_commit(order, commits, q);
    }
    assert forall|x: int|
        #![trigger commits[x]]
        0 <= x < times.len() implies exists|j: int| 0 <= j < d.len() && commits[#[trigger] d[j] as int] == commits[x] by {
        assert(order.no_duplicates()) by {
            assert forall|p: int, q: int| 0 <= p < order.len() && 0 <= q < order.len() && p != q implies order[p] != order[q] by {
                if p < q {
                    assert(comes_before(times, order[p] as int, order[q] as int));
                } else {
                    assert(comes_before(times, order[q] as int, order[p] as int));
                }
            }
        }
        assert forall|i: int| 0 <= i < order.len() implies (order[i] as int) < n by {
            assert(order[i] < times.len());
        }
        lemma_distinct_covers(order, n, x);
        assert(order.contains(x as usize));
        let q = choose|q: int| 0 <= q < order.len() && order[q] == x as usize;
        assert(order[q] as int == x);
        assert(commits[order[q] as int] == commits[x]);
    }
}

proof fn lemma_dedup_sorted(times: Seq<i64>, order: Seq<usize>, commits: Seq<Seq<char>>, k: int)
    requires
        time_order(times, order),
        0 <= k <= order.len(),
    ensures
        forall|i: int, j: int|
            0 <= i < j < dedup_by_commit(order, commits, k).len() ==> comes_before(
                times,
                dedup_by_commit(order, commits, k)[i] as int,
                dedup_by_commit(order, commits, k)[j] as int,
            ),
    decreases k,
{
    if k > 0 {
        lemma_dedup_sorted(times, order, commits, k - 1);
        lemma_dedup_from(order, commits, k - 1);
        let d = dedup_by_commit(order, commits, k - 1);
        let e = dedup_by_commit(order, commits, k);
        if first_of_commit(order, commits, k - 1) {
            assert forall|i: int, j: int| 0 <= i < j < e.len() implies comes_before(times, e[i] as int, e[j] as int) by {
                assert(e[i] == d[i]);
                if j < d.len() {
                    assert(e[j] == d[j]);
                } else {
                    let q = choose|q: int| 0 <= q < k - 1 && #[trigger] d[i] == order[q] && first_of_commit(order, commits, q);
                    assert(comes_before(times, order[q] as int, order[k - 1] as int));
                }
            }
        }
    }
}

/// The snapshots of several branches merged: in order of time (stably), each
/// commit kept once, at its earliest snapshot. Gives their positions.
pub fn merge_snapshot_order(times: &Vec<i64>, commits: &Vec<String>) -> (r: Vec<usize>)
    requires
        commits.len() == times.len(),
    ensures
        exists|order: Seq<usize>|
            time_order(times@, order) && r@ == #[trigger] dedup_by_commit(
                order,
                crate::text::texts(commits@),
                order.len() as int,
            ),
        merged(times@, crate::text::texts(commits@), r@),
{
    let order = order_by_time(times);
    let ghost cs = crate::text::texts(commits@);
    let mut out: Vec<usize> = Vec::new();
    let mut p: usize = 0;
    while p < order.len()
        invariant
            p <= order.len(),
            time_order(times@, order@),
            commits.len() == times.len(),
            cs == crate::text::texts(commits@),
            out@ == dedup_by_commit(order@, cs, p as int),
        decreases order.len() - p,
    {
        assert(order@[p as int] < commits.len());
        let mut keep = true;
        let mut q: usize = 0;
        while q < p && keep
            invariant
                q <= p < order.len(),
                time_order(times@, order@),
                commits.len() == times.len(),
                cs == crate::text::texts(commits@),
                keep ==> forall|t: int| 0 <= t < q ==> cs[order@[t] as int] != cs[order@[p as int] as int],
                !keep ==> !first_of_commit(order@, cs, p as int),
            decreases p - q,
        {
            assert(order@[q as int] < commits.len());
            if same_text(commits[order[q]].as_str(), commits[order[p]].as_str()) {
                keep = false;
                assert(cs[order@[q as int] as int] == cs[order@[p as int] as int]);
            }
            q = q + 1;
        }
        if keep {
            out.push(order[p]);
        }
        p = p + 1;
    }
    proof {
        lemma_merge_law(times@, cs, order@);
    }
    out
}

/// `n` distinct positions below `n` take in every position below `n`.
proof fn lemma_distinct_covers(o: Seq<usize>, n: int, x: int)
    requires
        o.len() == n,
        o.no_duplicates(),
        forall|p: int| 0 <= p < o.len() ==> (o[p] as int) < n,
        0 <= x < n,
    ensures
        o.contains(x as usize),
{
    if !o.contains(x as usize) {
        let r = o.map_values(|v: usize| if (v as int) > x { (v - 1) as usize } else { v });
        assert forall|p: int| 0 <= p < r.len() implies (r[p] as int) < n - 1 by {
            assert(o[p] != x as usize);
        }
        assert(r.no_duplicates()) by {
            assert forall|p: int, q: int| 0 <= p < r.len() && 0 <= q < r.len() && p != q implies r[p] != r[q] by {
                assert(o[p] != x as usize);
                assert(o[q] != x as usize);
                assert(o[p] != o[q]);
            }
        }
        lemma_distinct_below(r, n - 1);
    }
}

/// The order by time is the only one: two orders that both satisfy
/// `time_order` are the same.
pub proof fn lemma_time_order_unique(times: Seq<i64>, a: Seq<usize>, b: Seq<usize>)
    requires
        time_order(times, a),
        time_order(times, b),
    ensures
        a == b,
{
    let n = times.len() as int;
    assert(a.no_duplicates()) by {
        assert forall|p: int, q: int| 0 <= p < a.len() && 0 <= q < a.len() && p != q implies a[p] != a[q] by {
            if p < q {
                assert(comes_before(times, a[p] as int, a[q] as int));
            } else {
                assert(comes_before(times, a[q] as int, a[p] as int));
            }
        }
    }
    assert(b.no_duplicates()) by {
        assert forall|p: int, q: int| 0 <= p < b.len() && 0 <= q < b.len() && p != q implies b[p] != b[q] by {
            if p < q {
                assert(comes_before(times, b[p] as int, b[q] as int));
            } else {
                assert(comes_before(times, b[q] as int, b[p] as int));
            }
        }
    }
    assert forall|p: int| 0 <= p < n implies a[p] == b[p] by {
        lemma_time_order_prefix(times, a, b, p);
    }
    assert(a =~= b);
}

proof fn lemma_time_order_prefix(times: Seq<i64>, a: Seq<usize>, b: Seq<usize>, p: int)
    requires
        time_order(times, a),
        time_order(times, b),
        a.no_duplicates(),
        b.no_duplicates(),
        0 <= p < times.len(),
    ensures
        forall|q: int| 0 <= q <= p ==> a[q] == b[q],
    decreases p,
{
    let n = times.len() as int;
    if p > 0 {
        lemma_time_order_prefix(times, a, b, p - 1);
    }
    let x = a[p];
    let y = b[p];
    assert forall|i: int| 0 <= i < a.len() implies (a[i] as int) < n by {
        assert(a[i] < times.len());
    }
    assert forall|i: int| 0 <= i < b.len() implies (b[i] as int) < n by {
        assert(b[i] < times.len());
    }
    lemma_distinct_covers(a, n, y as int);
    lemma_distinct_covers(b, n, x as int);
    let k = choose|k: int| 0 <= k < a.len() && a[k] == y;
    let j = choose|j: int| 0 <= j < b.len() && b[j] == x;
    if x != y {
        if k < p {
            assert(b[k] == a[k]);
        }
        if j < p {
            assert(a[j] == b[j]);
        }
        assert(comes_before(times, a[p] as int, a[k] as int));
        assert(comes_before(times, b[p] as int, b[j] as int));
    }
}

/// Snapshots come back in time order: read back in the order `time_order`
/// gives, their times never decrease, and those taken at the same time keep
/// the order in which they were saved.
pub proof fn lemma_loaded_in_time_order(times: Seq<i64>, order: Seq<usize>)
    requires
        time_order(times, order),
    ensures
        forall|p: int, q: int| 0 <= p < q < order.len() ==> times[#[trigger] order[p] as int] <= times[#[trigger] order[q] as int],
        forall|p: int, q: int|
            0 <= p < q < order.len() && times[order[p] as int] == times[order[q] as int] ==> #[trigger] order[p]
                < #[trigger] order[q],
{
    assert forall|p: int, q: int| 0 <= p < q < order.len() implies times[#[trigger] order[p] as int] <= times[#[trigger] order[q] as int] by {
        assert(comes_before(times, order[p] as int, order[q] as int));
    }
    assert forall|p: int, q: int|
        0 <= p < q < order.len() && times[order[p] as int] == times[order[q] as int] implies #[trigger] order[p]
            < #[trigger] order[q] by {
        assert(comes_before(times, order[p] as int, order[q] as int));
    }
}

} // verus!
