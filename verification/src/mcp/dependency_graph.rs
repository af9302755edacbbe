use crate::mcp::registry::{dependency_views, records_view, MetadataView, ServiceMetadata};
use vstd::prelude::*;

verus! {

/// Service record `m` declares a dependency (optional or not) on the service named `name`.
#[verifier::opaque]
pub open spec fn declares_dependency(m: MetadataView, name: Seq<char>) -> bool {
    exists|k: int| 0 <= k < m.dependencies.len() && #[trigger] m.dependencies[k].service_name == name
}

/// Service `i` of `s` declares a dependency (optional or not) on service `j`.
pub open spec fn depends_on(s: Seq<MetadataView>, i: int, j: int) -> bool {
    &&& 0 <= i < s.len()
    &&& 0 <= j < s.len()
    &&& declares_dependency(s[i], s[j].name)
}

/// No two services of `s` share a name.
pub open spec fn names_unique(s: Seq<MetadataView>) -> bool {
    forall|i: int, j: int| 0 <= i < j < s.len() ==> s[i].name != s[j].name
}

/// No two services of `s` share an identifier.
pub open spec fn ids_unique(s: Seq<MetadataView>) -> bool {
    forall|i: int, j: int| 0 <= i < j < s.len() ==> s[i].id != s[j].id
}

/// Service `i` is marked in `mark`.
pub open spec fn marked(mark: Seq<bool>, i: int) -> bool {
    mark[i]
}

/// `mark` picks a nonempty set of services each of which depends on a marked service.
pub open spec fn is_cycle_witness(s: Seq<MetadataView>, mark: Seq<bool>) -> bool {
    &&& mark.len() == s.len()
    &&& exists|i: int| 0 <= i < s.len() && mark[i]
    &&& forall|i: int|
        0 <= i < s.len() && #[trigger] marked(mark, i) ==> exists|j: int|
            0 <= j < s.len() && mark[j] && #[trigger] depends_on(s, i, j)
}

/// The dependency graph of `s` has a cycle (a service depending on itself counts).
pub open spec fn has_dependency_cycle(s: Seq<MetadataView>) -> bool {
    exists|mark: Seq<bool>| is_cycle_witness(s, mark)
}

/// Index `i` occurs in `o`.
pub open spec fn lists_index(o: Seq<usize>, i: int) -> bool {
    exists|p: int| 0 <= p < o.len() && o[p] as int == i
}

/// `o` lists every service of `s` exactly once, each after all the services it depends on.
pub open spec fn is_startup_order(s: Seq<MetadataView>, o: Seq<usize>) -> bool {
    &&& o.no_duplicates()
    &&& forall|p: int| 0 <= p < o.len() ==> (o[p] as int) < s.len()
    &&& forall|i: int| 0 <= i < s.len() ==> #[trigger] lists_index(o, i)
    &&& forall|p: int, q: int|
        0 <= p <= q < o.len() ==> !#[trigger] depends_on(s, o[p] as int, o[q] as int)
}

/// A sequence of distinct indices below `n` has at most `n` elements.
pub(crate) proof fn lemma_distinct_below(o: Seq<usize>, n: int)
    requires
        0 <= n,
        o.no_duplicates(),
        forall|p: int| 0 <= p < o.len() ==> (o[p] as int) < n,
    ensures
        o.len() <= n,
    decreases n,
{
    if o.len() == 0 {
    } else if n <= 0 {
        assert((o[0] as int) < n);
    } else if n > usize::MAX + 1 {
        lemma_distinct_below(o, usize::MAX + 1);
    } else {
        let top = (n - 1) as usize;
        if exists|p: int| 0 <= p < o.len() && o[p] == top {
            let p = choose|p: int| 0 <= p < o.len() && o[p] == top;
            let r = o.remove(p);
            assert forall|a: int| 0 <= a < r.len() implies (r[a] as int) < n - 1 by {
                if a < p {
                    assert(r[a] == o[a]);
                } else {
                    assert(r[a] == o[a + 1]);
                }
            }
            assert(r.no_duplicates()) by {
                assert forall|a: int, b: int| 0 <= a < r.len() && 0 <= b < r.len() && a != b
                    implies r[a] != r[b] by {
                    let oa = if a < p { a } else { a + 1 };
                    let ob = if b < p { b } else { b + 1 };
                    assert(r[a] == o[oa]);
                    assert(r[b] == o[ob]);
                }
            }
            lemma_distinct_below(r, n - 1);
            assert(r.len() == o.len() - 1);
        } else {
            assert forall|a: int| 0 <= a < o.len() implies (o[a] as int) < n - 1 by {
                assert(o[a] != top);
            }
            lemma_distinct_below(o, n - 1);
        }
    }
}

/// A startup order rules out a dependency cycle.
proof fn lemma_startup_order_acyclic(s: Seq<MetadataView>, o: Seq<usize>)
    requires
        is_startup_order(s, o),
    ensures
        !has_dependency_cycle(s),
{
    if has_dependency_cycle(s) {
        let mark = choose|mark: Seq<bool>| is_cycle_witness(s, mark);
        lemma_prefix_unmarked(s, o, mark, o.len() as int);
        let i = choose|i: int| 0 <= i < s.len() && mark[i];
        assert(lists_index(o, i));
        let p = choose|p: int| 0 <= p < o.len() && o[p] as int == i;
        assert(!mark[o[p] as int]);
    }
}

proof fn lemma_prefix_unmarked(s: Seq<MetadataView>, o: Seq<usize>, mark: Seq<bool>, upto: int)
    requires
        is_startup_order(s, o),
        is_cycle_witness(s, mark),
        0 <= upto <= o.len(),
    ensures
        forall|q: int| 0 <= q < upto ==> !mark[o[q] as int],
    decreases upto,
{
    if upto > 0 {
        lemma_prefix_unmarked(s, o, mark, upto - 1);
        let x = o[upto - 1] as int;
        if mark[x] {
            assert(marked(mark, x));
            let j = choose|j: int| 0 <= j < s.len() && mark[j] && depends_on(s, x, j);
            assert(lists_index(o, j));
            let q = choose|q: int| 0 <= q < o.len() && o[q] as int == j;
            if q >= upto - 1 {
                assert(depends_on(s, o[upto - 1] as int, o[q] as int));
            } else {
                assert(!mark[o[q] as int]);
            }
        }
    }
}


/// Position of the first service named `name`, if any.
pub fn position_by_name(services: &Vec<ServiceMetadata>, name: &String) -> (r: Option<usize>)
    ensures
        match r {
            Some(i) => {
                &&& i < services.len()
                &&& services@[i as int].name@ == name@
                &&& forall|j: int| 0 <= j < i ==> services@[j].name@ != name@
            },
            None => forall|j: int| 0 <= j < services.len() ==> services@[j].name@ != name@,
        },
{
    let mut i: usize = 0;
    while i < services.len()
        invariant
            i <= services.len(),
            forall|j: int| 0 <= j < i ==> services@[j].name@ != name@,
        decreases services.len() - i,
    {
        if services[i].name == *name {
            return Some(i);
        }
        i = i + 1;
    }
    None
}

/// A service that service `i` depends on and that is not marked in `placed`, if any.
fn first_unplaced_dependency(services: &Vec<ServiceMetadata>, i: usize, placed: &Vec<bool>) -> (r:
    Option<usize>)
    requires
        i < services.len(),
        placed.len() == services.len(),
        names_unique(records_view(services@)),
    ensures
        r is None <==> forall|j: int|
            0 <= j < services.len() && #[trigger] depends_on(records_view(services@), i as int, j)
                ==> placed@[j],
        r matches Some(j) ==> j < services.len() && depends_on(records_view(services@), i as int, j as int)
            && !placed@[j as int],
{
    reveal(declares_dependency);
    let ghost s = records_view(services@);
    let deps = &services[i].dependencies;
    assert(s[i as int].dependencies == dependency_views(deps@));
    let mut k: usize = 0;
    while k < deps.len()
        invariant
            k <= deps.len(),
            i < services.len(),
            placed.len() == services.len(),
            s == records_view(services@),
            names_unique(s),
            deps == services@[i as int].dependencies,
            s[i as int].dependencies == dependency_views(deps@),
            forall|kk: int, j: int|
                0 <= kk < k && 0 <= j < services.len() && #[trigger] s[i as int].dependencies[kk].service_name
                    == #[trigger] s[j].name ==> placed@[j],
        decreases deps.len() - k,
    {
        match position_by_name(services, &deps[k].service_name) {
            Some(j) => {
                if !placed[j] {
                    reveal(declares_dependency);
                    assert(s[i as int].dependencies[k as int].service_name == s[j as int].name);
                    assert(depends_on(s, i as int, j as int));
                    return Some(j);
                }
                assert forall|kk: int, jj: int|
                    0 <= kk < k + 1 && 0 <= jj < services.len() && #[trigger] s[i as int].dependencies[kk].service_name
                        == #[trigger] s[jj].name implies placed@[jj] by {
                    reveal(declares_dependency);
                    if kk == k && jj != j {
                        assert(s[jj].name == s[j as int].name);
                    }
                }
            },
            None => {
                assert forall|kk: int, jj: int|
                    0 <= kk < k + 1 && 0 <= jj < services.len() && #[trigger] s[i as int].dependencies[kk].service_name
                        == #[trigger] s[jj].name implies placed@[jj] by {
                    if kk == k {
                        assert(services@[jj].name@ != deps@[k as int].service_name@);
                    }
                }
            },
        }
        k = k + 1;
    }
    None
}


/// Places the services one by one, each once all it depends on is placed, until
/// no more can be placed. Returns the marks of the placed services and the order
/// in which they were placed; every service left unplaced depends on another one
/// left unplaced.
fn place_services(services: &Vec<ServiceMetadata>) -> (r: (Vec<bool>, Vec<usize>))
    requires
        names_unique(records_view(services@)),
    ensures
        r.0.len() == services.len(),
        r.1@.no_duplicates(),
        forall|p: int| 0 <= p < r.1.len() ==> (r.1@[p] as int) < services.len() && r.0@[r.1@[p] as int],
        forall|x: int| 0 <= x < services.len() && #[trigger] r.0@[x] ==> lists_index(r.1@, x),
        forall|p: int, j: int|
            0 <= p < r.1.len() && #[trigger] depends_on(records_view(services@), r.1@[p] as int, j) ==> exists|q: int|
                0 <= q < p && r.1@[q] as int == j,
        forall|x: int|
            0 <= x < services.len() && !#[trigger] r.0@[x] ==> exists|j: int|
                0 <= j < services.len() && depends_on(records_view(services@), x, j) && !r.0@[j],
{
    let ghost s = records_view(services@);
    let n = services.len();
    let mut placed: Vec<bool> = Vec::new();
    while placed.len() < n
        invariant
            placed.len() <= n,
            forall|x: int| 0 <= x < placed.len() ==> !placed@[x],
        decreases n - placed.len(),
    {
        placed.push(false);
    }
    let mut order: Vec<usize> = Vec::new();
    loop
        invariant
            n == services.len(),
            s == records_view(services@),
            names_unique(s),
            placed.len() == n,
            order.len() <= n,
            order@.no_duplicates(),
            forall|p: int| 0 <= p < order.len() ==> (order@[p] as int) < n && placed@[order@[p] as int],
            forall|x: int| 0 <= x < n && #[trigger] placed@[x] ==> lists_index(order@, x),
            forall|p: int, j: int|
                0 <= p < order.len() && #[trigger] depends_on(s, order@[p] as int, j) ==> exists|q: int|
                    0 <= q < p && order@[q] as int == j,
        ensures
            forall|x: int|
                0 <= x < n && !#[trigger] placed@[x] ==> exists|j: int|
                    0 <= j < n && depends_on(s, x, j) && !placed@[j],
        decreases n - order.len(),
    {
        let ghost round_start = placed@;
        let ghost len_start = order.len();
        let mut progress = false;
        let mut i: usize = 0;
        while i < n
            invariant
                n == services.len(),
                s == records_view(services@),
                names_unique(s),
                i <= n,
                placed.len() == n,
                order.len() <= n,
                order@.no_duplicates(),
                forall|p: int| 0 <= p < order.len() ==> (order@[p] as int) < n && placed@[order@[p] as int],
                forall|x: int| 0 <= x < n && #[trigger] placed@[x] ==> lists_index(order@, x),
                forall|p: int, j: int|
                    0 <= p < order.len() && #[trigger] depends_on(s, order@[p] as int, j) ==> exists|q: int|
                        0 <= q < p && order@[q] as int == j,
                progress ==> order.len() > len_start,
                !progress ==> placed@ == round_start && order.len() == len_start,
                !progress ==> forall|x: int|
                    0 <= x < i && !#[trigger] placed@[x] ==> exists|j: int|
                        0 <= j < n && depends_on(s, x, j) && !placed@[j],
            decreases n - i,
        {
            if !placed[i] && first_unplaced_dependency(services, i, &placed).is_none() {
                proof {
                    lemma_distinct_below(order@.push(i), n as int);
                }
                let ghost before = order@;
                let ghost pre = placed@;
                placed.set(i, true);
                order.push(i);
                progress = true;
                proof {
                    assert forall|x: int| 0 <= x < n && #[trigger] placed@[x] implies lists_index(order@, x) by {
                        if x == i {
                            assert(order@[before.len() as int] == i);
                        } else {
                            let p = choose|p: int| 0 <= p < before.len() && before[p] as int == x;
                            assert(order@[p] == before[p]);
                        }
                    }
                    assert forall|p: int, j: int|
                        0 <= p < order.len() && #[trigger] depends_on(s, order@[p] as int, j) implies exists|q: int|
                            0 <= q < p && order@[q] as int == j by {
                        if p == before.len() {
                            assert(order@[p] == i);
                            assert(depends_on(records_view(services@), i as int, j));
                            assert(pre[j]);
                            assert(placed@[j]);
                            let q = choose|q: int| 0 <= q < before.len() && before[q] as int == j;
                            assert(order@[q] == before[q]);
                        } else {
                            assert(order@[p] == before[p]);
                            let q = choose|q: int| 0 <= q < p && before[q] as int == j;
                            assert(order@[q] == before[q]);
                        }
                    }
                }
            }
            i = i + 1;
        }
        if !progress {
            break;
        }
    }
    (placed, order)
}


/// Lists the services so that each comes after all it depends on, or `None`
/// when a dependency cycle makes that impossible.
pub fn startup_order_indices(services: &Vec<ServiceMetadata>) -> (r: Option<Vec<usize>>)
    requires
        names_unique(records_view(services@)),
    ensures
        r is Some <==> !has_dependency_cycle(records_view(services@)),
        r matches Some(o) ==> is_startup_order(records_view(services@), o@),
{
    let ghost s = records_view(services@);
    let n = services.len();
    let (placed, order) = place_services(services);
    let mut x: usize = 0;
    while x < n
        invariant
            x <= n,
            n == services.len(),
            s == records_view(services@),
            placed.len() == n,
            forall|y: int| 0 <= y < x ==> placed@[y],
            forall|y: int|
                0 <= y < n && !#[trigger] placed@[y] ==> exists|j: int|
                    0 <= j < n && depends_on(s, y, j) && !placed@[j],
        decreases n - x,
    {
        if !placed[x] {
            proof {
                let mark = Seq::new(n as nat, |y: int| !placed@[y]);
                assert(mark[x as int]);
                assert(is_cycle_witness(s, mark));
            }
            return None;
        }
        x = x + 1;
    }
    proof {
        lemma_all_placed_is_startup_order(s, placed@, order@);
        lemma_startup_order_acyclic(s, order@);
    }
    Some(order)
}


/// When every service is placed, the placement order is a startup order.
proof fn lemma_all_placed_is_startup_order(s: Seq<MetadataView>, placed: Seq<bool>, order: Seq<usize>)
    requires
        placed.len() == s.len(),
        forall|y: int| 0 <= y < s.len() ==> placed[y],
        order.no_duplicates(),
        forall|p: int| 0 <= p < order.len() ==> (order[p] as int) < s.len(),
        forall|x: int| 0 <= x < s.len() && #[trigger] placed[x] ==> lists_index(order, x),
        forall|p: int, j: int|
            0 <= p < order.len() && #[trigger] depends_on(s, order[p] as int, j) ==> exists|q: int|
                0 <= q < p && order[q] as int == j,
    ensures
        is_startup_order(s, order),
{
    assert forall|y: int| 0 <= y < s.len() implies #[trigger] lists_index(order, y) by {
        assert(placed[y]);
    }
    assert forall|p: int, q: int| 0 <= p <= q < order.len() implies !#[trigger] depends_on(
        s,
        order[p] as int,
        order[q] as int,
    ) by {
        if depends_on(s, order[p] as int, order[q] as int) {
            let q2 = choose|q2: int| 0 <= q2 < p && order[q2] as int == order[q] as int;
        }
    }
}

/// Closes a walk at the first occurrence of `next`: the part of `path` from there
/// on, followed by `next`.
fn close_cycle(Ghost(s): Ghost<Seq<MetadataView>>, path: &Vec<usize>, next: usize) -> (cycle: Vec<usize>)
    requires
        path.len() >= 1,
        lists_index(path@, next as int),
        forall|p: int| 0 <= p < path.len() ==> (path@[p] as int) < s.len(),
        forall|p: int| 0 <= p < path.len() - 1 ==> #[trigger] depends_on(s, path@[p] as int, path@[p + 1] as int),
        depends_on(s, path@[path.len() - 1] as int, next as int),
    ensures
        is_dependency_cycle(s, cycle@),
{
    let mut pos: usize = 0;
    assert(path@.subrange(0, path.len() as int) =~= path@);
    while path[pos] != next
        invariant
            0 <= pos < path.len(),
            lists_index(path@.subrange(pos as int, path.len() as int), next as int),
        decreases path.len() - pos,
    {
        proof {
            let q = choose|q: int|
                0 <= q < path.len() - pos && path@.subrange(pos as int, path.len() as int)[q] as int
                    == next as int;
            assert(q != 0);
            assert(path@.subrange(pos as int + 1, path.len() as int)[q - 1] == path@.subrange(
                pos as int,
                path.len() as int,
            )[q]);
        }
        pos = pos + 1;
    }
    let mut cycle: Vec<usize> = Vec::new();
    let mut k: usize = pos;
    while k < path.len()
        invariant
            pos <= k <= path.len(),
            cycle@ == path@.subrange(pos as int, k as int),
        decreases path.len() - k,
    {
        cycle.push(path[k]);
        k = k + 1;
    }
    cycle.push(next);
    proof {
        assert(cycle@[0] == path@[pos as int]);
        assert forall|p: int| 0 <= p < cycle.len() - 1 implies #[trigger] depends_on(
            s,
            cycle@[p] as int,
            cycle@[p + 1] as int,
        ) by {
            assert(cycle@[p] == path@[pos + p]);
            if p + 1 < cycle.len() - 1 {
                assert(cycle@[p + 1] == path@[pos + p + 1]);
            } else {
                assert(pos + p == path.len() - 1);
            }
        }
    }
    cycle
}

/// `c` is a closed walk along dependencies: it starts and ends at the same service.
pub open spec fn is_dependency_cycle(s: Seq<MetadataView>, c: Seq<usize>) -> bool {
    &&& c.len() >= 2
    &&& c[0] == c[c.len() - 1]
    &&& forall|p: int| 0 <= p < c.len() ==> (c[p] as int) < s.len()
    &&& forall|p: int| 0 <= p < c.len() - 1 ==> #[trigger] depends_on(s, c[p] as int, c[p + 1] as int)
}

/// Every service left unplaced depends on another one left unplaced.
#[verifier::opaque]
spec fn unplaced_closed(s: Seq<MetadataView>, placed: Seq<bool>) -> bool {
    &&& placed.len() == s.len()
    &&& forall|x: int|
        0 <= x < s.len() && !#[trigger] placed[x] ==> exists|j: int|
            0 <= j < s.len() && depends_on(s, x, j) && !placed[j]
}

/// `path` is a nonempty walk along dependencies through unplaced services,
/// visiting none twice, and `on_path` marks exactly its services.
#[verifier::opaque]
spec fn walk_ok(s: Seq<MetadataView>, placed: Seq<bool>, path: Seq<usize>, on_path: Seq<bool>) -> bool {
    &&& placed.len() == s.len()
    &&& on_path.len() == s.len()
    &&& path.len() >= 1
    &&& path.no_duplicates()
    &&& forall|p: int| 0 <= p < path.len() ==> (path[p] as int) < s.len() && !placed[path[p] as int]
    &&& forall|x: int| 0 <= x < s.len() ==> (#[trigger] on_path[x] <==> lists_index(path, x))
    &&& forall|p: int| 0 <= p < path.len() - 1 ==> #[trigger] depends_on(s, path[p] as int, path[p + 1] as int)
}

/// The unplaced services, when there is one, witness a cycle.
proof fn lemma_unplaced_witness(s: Seq<MetadataView>, placed: Seq<bool>, start: usize)
    requires
        unplaced_closed(s, placed),
        (start as int) < s.len(),
        !placed[start as int],
    ensures
        has_dependency_cycle(s),
{
    reveal(unplaced_closed);
    let mark = Seq::new(s.len(), |y: int| !placed[y]);
    assert(mark[start as int]);
    assert(is_cycle_witness(s, mark));
}

/// A walk of one unplaced service.
proof fn lemma_walk_start(s: Seq<MetadataView>, placed: Seq<bool>, start: usize, on_path: Seq<bool>)
    requires
        placed.len() == s.len(),
        (start as int) < s.len(),
        !placed[start as int],
        on_path.len() == s.len(),
        forall|x: int| 0 <= x < s.len() ==> on_path[x] == (x == start as int),
    ensures
        walk_ok(s, placed, seq![start], on_path),
{
    reveal(walk_ok);
    let path = seq![start];
    assert forall|x: int| 0 <= x < s.len() implies (#[trigger] on_path[x] <==> lists_index(path, x)) by {
        if x == start as int {
            assert(path[0] == start);
        }
    }
}

/// The placement's guarantee, as a closed predicate.
proof fn lemma_unplaced_closed(s: Seq<MetadataView>, placed: Seq<bool>)
    requires
        placed.len() == s.len(),
        forall|x: int|
            0 <= x < s.len() && !#[trigger] placed[x] ==> exists|j: int|
                0 <= j < s.len() && depends_on(s, x, j) && !placed[j],
    ensures
        unplaced_closed(s, placed),
{
    reveal(unplaced_closed);
}

/// The last service of a walk is unplaced, so it has an unplaced dependency.
proof fn lemma_walk_last(s: Seq<MetadataView>, placed: Seq<bool>, path: Seq<usize>, on_path: Seq<bool>)
    requires
        unplaced_closed(s, placed),
        walk_ok(s, placed, path, on_path),
    ensures
        path.len() >= 1,
        (path[path.len() - 1] as int) < s.len(),
        exists|j: int| 0 <= j < s.len() && depends_on(s, path[path.len() - 1] as int, j) && !placed[j],
        path.len() <= s.len(),
{
    reveal(unplaced_closed);
    reveal(walk_ok);
    assert(!placed[path[path.len() - 1] as int]);
    lemma_distinct_below(path, s.len() as int);
}

/// The facts `close_cycle` needs when the walk's next service is already on it.
proof fn lemma_walk_closes(s: Seq<MetadataView>, placed: Seq<bool>, path: Seq<usize>, on_path: Seq<bool>, next: usize)
    requires
        walk_ok(s, placed, path, on_path),
        (next as int) < s.len(),
        on_path[next as int],
    ensures
        path.len() >= 1,
        lists_index(path, next as int),
        forall|p: int| 0 <= p < path.len() ==> (path[p] as int) < s.len(),
        forall|p: int| 0 <= p < path.len() - 1 ==> #[trigger] depends_on(s, path[p] as int, path[p + 1] as int),
{
    reveal(walk_ok);
}

/// Appending `next`, an unplaced dependency of the walk's last service that is not
/// on the walk, keeps it a walk.
proof fn lemma_walk_extended(s: Seq<MetadataView>, placed: Seq<bool>, before: Seq<usize>, on_before: Seq<bool>, next: usize)
    requires
        walk_ok(s, placed, before, on_before),
        (next as int) < s.len(),
        !on_before[next as int],
        !placed[next as int],
        depends_on(s, before[before.len() - 1] as int, next as int),
    ensures
        walk_ok(s, placed, before.push(next), on_before.update(next as int, true)),
        before.push(next).len() <= s.len(),
{
    reveal(walk_ok);
    let n = s.len() as int;
    let path = before.push(next);
    let on_path = on_before.update(next as int, true);
    assert(!lists_index(before, next as int));
    assert(path.no_duplicates()) by {
        assert forall|a: int, b: int| 0 <= a < b < path.len() implies path[a] != path[b] by {
            if b == before.len() {
                assert(path[a] == before[a]);
            } else {
                assert(path[a] == before[a]);
                assert(path[b] == before[b]);
            }
        }
    }
    assert forall|x: int| 0 <= x < n implies (#[trigger] on_path[x] <==> lists_index(path, x)) by {
        if x == next {
            assert(path[before.len() as int] == next);
        } else {
            if lists_index(path, x) {
                let p = choose|p: int| 0 <= p < path.len() && path[p] as int == x;
                assert(p < before.len());
                assert(before[p] == path[p]);
            }
            if lists_index(before, x) {
                let p = choose|p: int| 0 <= p < before.len() && before[p] as int == x;
                assert(before[p] == path[p]);
            }
        }
    }
    assert forall|p: int| 0 <= p < path.len() - 1 implies #[trigger] depends_on(s, path[p] as int, path[p + 1] as int) by {
        if p < before.len() - 1 {
            assert(path[p] == before[p]);
            assert(path[p + 1] == before[p + 1]);
        }
    }
    assert forall|p: int| 0 <= p < path.len() implies (path[p] as int) < n && !placed[path[p] as int] by {
        if p < before.len() {
            assert(path[p] == before[p]);
        }
    }
    lemma_distinct_below(path, n);
}

/// A cycle of the dependency graph, as a closed walk, when there is one.
pub fn find_dependency_cycle(services: &Vec<ServiceMetadata>) -> (r: Option<Vec<usize>>)
    requires
        names_unique(records_view(services@)),
    ensures
        r is Some <==> has_dependency_cycle(records_view(services@)),
        r matches Some(c) ==> is_dependency_cycle(records_view(services@), c@),
{
    let ghost s = records_view(services@);
    let n = services.len();
    let (placed, order) = place_services(services);
    proof {
        lemma_unplaced_closed(s, placed@);
    }
    let mut start: usize = 0;
    while start < n && placed[start]
        invariant
            start <= n,
            placed.len() == n,
            forall|y: int| 0 <= y < start ==> placed@[y],
        decreases n - start,
    {
        start = start + 1;
    }
    if start == n {
        proof {
            lemma_all_placed_is_startup_order(s, placed@, order@);
            lemma_startup_order_acyclic(s, order@);
        }
        return None;
    }
    let mut on_path: Vec<bool> = Vec::new();
    while on_path.len() < n
        invariant
            on_path.len() <= n,
            start < n,
            forall|x: int| 0 <= x < on_path.len() ==> on_path@[x] == (x == start as int),
        decreases n - on_path.len(),
    {
        on_path.push(on_path.len() == start);
    }
    let mut path: Vec<usize> = Vec::new();
    path.push(start);
    proof {
        assert(path@ =~= seq![start]);
        lemma_walk_start(s, placed@, start, on_path@);
        lemma_unplaced_witness(s, placed@, start);
    }
    loop
        invariant
            n == services.len(),
            s == records_view(services@),
            names_unique(s),
            placed.len() == n,
            on_path.len() == n,
            unplaced_closed(s, placed@),
            walk_ok(s, placed@, path@, on_path@),
            has_dependency_cycle(s),
        decreases n - path.len(),
    {
        proof {
            lemma_walk_last(s, placed@, path@, on_path@);
        }
        let cur = path[path.len() - 1];
        let next = match first_unplaced_dependency(services, cur, &placed) {
            Some(j) => j,
            None => {
                proof {
                    let j = choose|j: int| 0 <= j < n && depends_on(s, cur as int, j) && !placed@[j];
                    assert(placed@[j]);
                }
                return None;
            },
        };
        if on_path[next] {
            proof {
                lemma_walk_closes(s, placed@, path@, on_path@, next);
            }
            let cycle = close_cycle(Ghost(s), &path, next);
            return Some(cycle);
        }
        proof {
            lemma_walk_extended(s, placed@, path@, on_path@, next);
        }
        path.push(next);
        on_path.set(next, true);
    }
}


/// Error of a registry operation.
/// `a` and `b` have the same services, by name and dependencies, in the same positions.
pub open spec fn same_graph(a: Seq<MetadataView>, b: Seq<MetadataView>) -> bool {
    &&& a.len() == b.len()
    &&& forall|i: int|
        #![trigger a[i], b[i]]
        0 <= i < a.len() ==> a[i].name == b[i].name && a[i].dependencies == b[i].dependencies
}

/// Whether a record declares a dependency on a name depends only on its dependencies.
pub(crate) proof fn lemma_declares_same(a: MetadataView, b: MetadataView, name: Seq<char>)
    requires
        a.dependencies == b.dependencies,
    ensures
        declares_dependency(a, name) == declares_dependency(b, name),
{
    reveal(declares_dependency);
}

/// A marked service of `a` has a marked dependency in `b` too, when the two have
/// the same graph.
proof fn lemma_witness_step(a: Seq<MetadataView>, b: Seq<MetadataView>, mark: Seq<bool>, i: int)
    requires
        same_graph(a, b),
        is_cycle_witness(a, mark),
        0 <= i < a.len(),
        mark[i],
    ensures
        exists|j: int| 0 <= j < b.len() && mark[j] && #[trigger] depends_on(b, i, j),
{
    assert(marked(mark, i));
    let j = choose|j: int| 0 <= j < a.len() && mark[j] && depends_on(a, i, j);
    assert(a[i].name == b[i].name && a[i].dependencies == b[i].dependencies);
    assert(a[j].name == b[j].name && a[j].dependencies == b[j].dependencies);
    lemma_declares_same(a[i], b[i], a[j].name);
    assert(depends_on(b, i, j));
}

/// A cycle witness of `a` is one of `b` when the two have the same graph.
pub(crate) proof fn lemma_witness_same_graph(a: Seq<MetadataView>, b: Seq<MetadataView>, mark: Seq<bool>)
    requires
        same_graph(a, b),
        is_cycle_witness(a, mark),
    ensures
        is_cycle_witness(b, mark),
{
    assert forall|i: int| 0 <= i < b.len() && #[trigger] marked(mark, i) implies exists|j: int|
        0 <= j < b.len() && mark[j] && #[trigger] depends_on(b, i, j) by {
        lemma_witness_step(a, b, mark, i);
    }
}

/// Whether a graph has a cycle depends only on names and dependencies.
pub(crate) proof fn lemma_same_graph(a: Seq<MetadataView>, b: Seq<MetadataView>)
    requires
        same_graph(a, b),
    ensures
        has_dependency_cycle(a) == has_dependency_cycle(b),
{
    if has_dependency_cycle(a) {
        let mark = choose|mark: Seq<bool>| is_cycle_witness(a, mark);
        lemma_witness_same_graph(a, b, mark);
    }
    if has_dependency_cycle(b) {
        let mark = choose|mark: Seq<bool>| is_cycle_witness(b, mark);
        assert forall|i: int| #![trigger a[i], b[i]] 0 <= i < b.len() implies b[i].name == a[i].name && b[i].dependencies
            == a[i].dependencies by {
            assert(a[i].name == b[i].name && a[i].dependencies == b[i].dependencies);
        }
        lemma_witness_same_graph(b, a, mark);
    }
}

/// A marked service of `s` (outside `t`) has a marked dependency, when the marks of
/// `s.remove(t)` witness a cycle there and `t` is unmarked.
proof fn lemma_remove_step(s: Seq<MetadataView>, t: int, m: Seq<bool>, i: int)
    requires
        0 <= t < s.len(),
        is_cycle_witness(s.remove(t), m),
        0 <= i < s.len(),
        i != t,
        m.insert(t, false)[i],
    ensures
        exists|j: int| 0 <= j < s.len() && m.insert(t, false)[j] && #[trigger] depends_on(s, i, j),
{
    let r = s.remove(t);
    let mark = m.insert(t, false);
    let ri = if i < t { i } else { i - 1 };
    assert(mark[i] == m[ri]);
    assert(r[ri] == s[i]);
    assert(marked(m, ri));
    let rj = choose|j: int| 0 <= j < r.len() && m[j] && depends_on(r, ri, j);
    let sj = if rj < t { rj } else { rj + 1 };
    assert(mark[sj] == m[rj]);
    assert(r[rj] == s[sj]);
    lemma_declares_same(r[ri], s[i], r[rj].name);
    assert(depends_on(s, i, sj));
}

/// Removing a service from an acyclic graph leaves it acyclic.
pub(crate) proof fn lemma_remove_acyclic(s: Seq<MetadataView>, t: int)
    requires
        0 <= t < s.len(),
        !has_dependency_cycle(s),
    ensures
        !has_dependency_cycle(s.remove(t)),
{
    let r = s.remove(t);
    if has_dependency_cycle(r) {
        let m = choose|mark: Seq<bool>| is_cycle_witness(r, mark);
        let mark = m.insert(t, false);
        let i0 = choose|i: int| 0 <= i < r.len() && m[i];
        let s0 = if i0 < t { i0 } else { i0 + 1 };
        assert(mark[s0] == m[i0]);
        assert forall|i: int| 0 <= i < s.len() && #[trigger] marked(mark, i) implies exists|j: int|
            0 <= j < s.len() && mark[j] && #[trigger] depends_on(s, i, j) by {
            assert(i != t);
            lemma_remove_step(s, t, m, i);
        }
        assert(is_cycle_witness(s, mark));
    }
}

} // verus!
