use crate::mcp::dependency_graph::{lemma_distinct_below, lists_index};
use crate::mcp::position_of_name;
use crate::project_insights::{
    class_graph_of, ArchitecturalLayer, CircularDependency, DependencyEdge, DependencyGraph, InsightsGenerator,
    Severity, StructuralSummary,
};
use crate::text::texts;
use vstd::prelude::*;

verus! {

/// Some edge of `edges` goes from `a` to `b`.
pub open spec fn has_edge(edges: Seq<DependencyEdge>, a: Seq<char>, b: Seq<char>) -> bool {
    exists|k: int| #![trigger edges[k]] 0 <= k < edges.len() && edges[k].from@ == a && edges[k].to@ == b
}

/// `path` starts at `start`, follows edges, visits no node twice, and its last
/// node has an edge back to a node on it.
pub open spec fn is_lasso(edges: Seq<DependencyEdge>, start: Seq<char>, path: Seq<Seq<char>>) -> bool {
    &&& path.len() >= 1
    &&& path[0] == start
    &&& path.no_duplicates()
    &&& forall|i: int| 0 <= i < path.len() - 1 ==> #[trigger] has_edge(edges, path[i], path[i + 1])
    &&& exists|j: int| 0 <= j < path.len() && has_edge(edges, path[path.len() - 1], #[trigger] path[j])
}

/// A cycle can be reached from `start` along the edges.
pub open spec fn reaches_cycle(edges: Seq<DependencyEdge>, start: Seq<char>) -> bool {
    exists|path: Seq<Seq<char>>| #[trigger] is_lasso(edges, start, path)
}

/// The nodes with an edge out, in the order of their first edge.
pub open spec fn sources(edges: Seq<DependencyEdge>) -> Seq<Seq<char>>
    decreases edges.len(),
{
    if edges.len() == 0 {
        Seq::empty()
    } else {
        let rest = sources(edges.drop_last());
        let a = edges.last().from@;
        if rest.contains(a) {
            rest
        } else {
            rest.push(a)
        }
    }
}

/// Those of `nodes` from which a cycle can be reached, in order.
pub open spec fn cyclic_among(edges: Seq<DependencyEdge>, nodes: Seq<Seq<char>>) -> Seq<Seq<char>>
    decreases nodes.len(),
{
    if nodes.len() == 0 {
        Seq::empty()
    } else {
        let rest = cyclic_among(edges, nodes.drop_last());
        if reaches_cycle(edges, nodes.last()) {
            rest.push(nodes.last())
        } else {
            rest
        }
    }
}

/// `found` reports, for each node with an edge out, in the order of its first
/// edge, from which a cycle can be reached, a lasso from it, graded high.
pub open spec fn cycles_found(edges: Seq<DependencyEdge>, found: Seq<CircularDependency>) -> bool {
    &&& found.len() == cyclic_among(edges, sources(edges)).len()
    &&& forall|i: int|
        #![trigger found[i]]
        0 <= i < found.len() ==> found[i].severity == Severity::High && is_lasso(
            edges,
            cyclic_among(edges, sources(edges))[i],
            texts(found[i].cycle@),
        )
}

/// Some index pair of `ends` is `(i, j)`.
spec fn linked(ends: Seq<(usize, usize)>, i: int, j: int) -> bool {
    exists|k: int| #![trigger ends[k]] 0 <= k < ends.len() && ends[k].0 as int == i && ends[k].1 as int == j
}

/// `names` holds each node once and `ends` gives, edge by edge, the positions of
/// its two nodes in `names`.
spec fn indexes(edges: Seq<DependencyEdge>, names: Seq<Seq<char>>, ends: Seq<(usize, usize)>) -> bool {
    &&& names.no_duplicates()
    &&& ends.len() == edges.len()
    &&& forall|k: int|
        #![trigger ends[k]]
        0 <= k < ends.len() ==> (ends[k].0 as int) < names.len() && (ends[k].1 as int) < names.len()
            && names[ends[k].0 as int] == edges[k].from@ && names[ends[k].1 as int] == edges[k].to@
}

/// Each pair of `ends` lies below `n`.
spec fn ends_below(ends: Seq<(usize, usize)>, n: int) -> bool {
    forall|k: int| #![trigger ends[k]] 0 <= k < ends.len() ==> (ends[k].0 as int) < n && (ends[k].1 as int) < n
}

/// An edge between two named nodes is an index pair between their positions.
proof fn lemma_edge_linked(
    edges: Seq<DependencyEdge>,
    names: Seq<Seq<char>>,
    ends: Seq<(usize, usize)>,
    i: int,
    j: int,
)
    requires
        indexes(edges, names, ends),
        0 <= i < names.len(),
        0 <= j < names.len(),
    ensures
        has_edge(edges, names[i], names[j]) <==> linked(ends, i, j),
{
    if has_edge(edges, names[i], names[j]) {
        let k = choose|k: int| #![trigger edges[k]] 0 <= k < edges.len() && edges[k].from@ == names[i] && edges[k].to@ == names[j];
        assert(names[ends[k].0 as int] == names[i]);
        assert(names[ends[k].1 as int] == names[j]);
        assert(ends[k].0 as int == i);
        assert(ends[k].1 as int == j);
    }
    if linked(ends, i, j) {
        let k = choose|k: int| #![trigger ends[k]] 0 <= k < ends.len() && ends[k].0 as int == i && ends[k].1 as int == j;
        assert(edges[k].from@ == names[i] && edges[k].to@ == names[j]);
    }
}

/// Adds `s` to `names` unless it is there, and gives its position.
fn intern(names: &mut Vec<String>, s: &String) -> (r: usize)
    requires
        texts(old(names)@).no_duplicates(),
    ensures
        texts(final(names)@).no_duplicates(),
        r < final(names).len(),
        final(names)@[r as int]@ == s@,
        final(names).len() >= old(names).len(),
        forall|i: int| 0 <= i < old(names).len() ==> final(names)@[i] == old(names)@[i],
{
    match position_of_name(names, s.as_str()) {
        Some(i) => i,
        None => {
            let ghost before = texts(names@);
            names.push(s.clone());
            assert(texts(names@) =~= before.push(s@));
            assert forall|a: int, b: int|
                0 <= a < names.len() && 0 <= b < names.len() && a != b implies texts(names@)[a]
                != texts(names@)[b] by {
                if a < before.len() && b < before.len() {
                    assert(before[a] != before[b]);
                } else if a < before.len() {
                    assert(before[a] == texts(names@)[a]);
                } else if b < before.len() {
                    assert(before[b] == texts(names@)[b]);
                }
            }
            names.len() - 1
        },
    }
}

/// The nodes of `edges`, each once, and the positions of each edge's nodes.
fn index_graph(edges: &Vec<DependencyEdge>) -> (r: (Vec<String>, Vec<(usize, usize)>))
    ensures
        indexes(edges@, texts(r.0@), r.1@),
{
    let mut names: Vec<String> = Vec::new();
    let mut ends: Vec<(usize, usize)> = Vec::new();
    let mut k: usize = 0;
    assert(texts(names@) =~= Seq::<Seq<char>>::empty());
    while k < edges.len()
        invariant
            k <= edges.len(),
            texts(names@).no_duplicates(),
            ends.len() == k,
            forall|q: int|
                #![trigger ends@[q]]
                0 <= q < k ==> (ends@[q].0 as int) < names.len() && (ends@[q].1 as int) < names.len()
                    && names@[ends@[q].0 as int]@ == edges@[q].from@ && names@[ends@[q].1 as int]@
                    == edges@[q].to@,
        decreases edges.len() - k,
    {
        let ghost before = names@;
        let a = intern(&mut names, &edges[k].from);
        let ghost middle = names@;
        let b = intern(&mut names, &edges[k].to);
        ends.push((a, b));
        assert forall|q: int|
            #![trigger ends@[q]]
            0 <= q < k + 1 implies (ends@[q].0 as int) < names.len() && (ends@[q].1 as int) < names.len()
                && names@[ends@[q].0 as int]@ == edges@[q].from@ && names@[ends@[q].1 as int]@
                == edges@[q].to@ by {
            if q < k {
                assert(names@[ends@[q].0 as int] == before[ends@[q].0 as int]);
                assert(names@[ends@[q].1 as int] == before[ends@[q].1 as int]);
            } else {
                assert(names@[a as int] == middle[a as int]);
            }
        }
        k = k + 1;
    }
    (names, ends)
}

/// A node reached from `i` by an index pair and not yet peeled, if any.
fn unpeeled_successor(ends: &Vec<(usize, usize)>, n: usize, i: usize, peeled: &Vec<bool>) -> (r: Option<usize>)
    requires
        peeled.len() == n,
        ends_below(ends@, n as int),
    ensures
        r is None <==> forall|j: int| 0 <= j < n && #[trigger] linked(ends@, i as int, j) ==> peeled@[j],
        r matches Some(j) ==> j < n && linked(ends@, i as int, j as int) && !peeled@[j as int],
{
    let mut k: usize = 0;
    while k < ends.len()
        invariant
            k <= ends.len(),
            peeled.len() == n,
            ends_below(ends@, n as int),
            forall|q: int| #![trigger ends@[q]] 0 <= q < k && ends@[q].0 == i ==> peeled@[ends@[q].1 as int],
        decreases ends.len() - k,
    {
        let (a, b) = ends[k];
        if a == i && !peeled[b] {
            assert(linked(ends@, i as int, b as int));
            return Some(b);
        }
        k = k + 1;
    }
    assert forall|j: int| 0 <= j < n && #[trigger] linked(ends@, i as int, j) implies peeled@[j] by {
        let q = choose|q: int| #![trigger ends@[q]] 0 <= q < ends.len() && ends@[q].0 as int == i as int && ends@[q].1 as int == j;
    }
    None
}

/// Every node left unpeeled has an edge to another node left unpeeled.
spec fn unpeeled_closed(ends: Seq<(usize, usize)>, n: int, peeled: Seq<bool>) -> bool {
    &&& peeled.len() == n
    &&& forall|x: int|
        0 <= x < n && !#[trigger] peeled[x] ==> exists|j: int| 0 <= j < n && linked(ends, x, j) && !peeled[j]
}

/// Every edge out of a peeled node goes to a peeled node of lower rank.
spec fn ranked(ends: Seq<(usize, usize)>, n: int, peeled: Seq<bool>, rank: Seq<int>) -> bool {
    &&& peeled.len() == n
    &&& rank.len() == n
    &&& forall|x: int, j: int|
        0 <= x < n && peeled[x] && #[trigger] linked(ends, x, j) ==> 0 <= j < n && peeled[j] && rank[j]
            < rank[x]
}

/// Peels, round after round, each node all of whose edges lead to peeled nodes,
/// until a round peels none. The peeled nodes get ranks that fall along every
/// edge; each node left over has an edge to another one left over.
fn peel(ends: &Vec<(usize, usize)>, n: usize) -> (r: (Vec<bool>, Ghost<Seq<int>>))
    requires
        ends_below(ends@, n as int),
    ensures
        ranked(ends@, n as int, r.0@, r.1@),
        unpeeled_closed(ends@, n as int, r.0@),
{
    let mut peeled: Vec<bool> = Vec::new();
    while peeled.len() < n
        invariant
            peeled.len() <= n,
            forall|x: int| 0 <= x < peeled.len() ==> !peeled@[x],
        decreases n - peeled.len(),
    {
        peeled.push(false);
    }
    let ghost mut rank: Seq<int> = Seq::new(n as nat, |x: int| 0int);
    let mut order: Vec<usize> = Vec::new();
    loop
        invariant
            ends_below(ends@, n as int),
            peeled.len() == n,
            rank.len() == n,
            order.len() <= n,
            order@.no_duplicates(),
            forall|p: int| 0 <= p < order.len() ==> (order@[p] as int) < n && peeled@[order@[p] as int],
            forall|x: int| 0 <= x < n && #[trigger] peeled@[x] ==> rank[x] < order.len(),
            ranked(ends@, n as int, peeled@, rank),
        ensures
            ranked(ends@, n as int, peeled@, rank),
            unpeeled_closed(ends@, n as int, peeled@),
        decreases n - order.len(),
    {
        let ghost round_start = peeled@;
        let ghost len_start = order.len();
        let mut progress = false;
        let mut i: usize = 0;
        while i < n
            invariant
                ends_below(ends@, n as int),
                i <= n,
                peeled.len() == n,
                rank.len() == n,
                order.len() <= n,
                order@.no_duplicates(),
                forall|p: int| 0 <= p < order.len() ==> (order@[p] as int) < n && peeled@[order@[p] as int],
                forall|x: int| 0 <= x < n && #[trigger] peeled@[x] ==> rank[x] < order.len(),
                ranked(ends@, n as int, peeled@, rank),
                progress ==> order.len() > len_start,
                !progress ==> peeled@ == round_start && order.len() == len_start,
                !progress ==> forall|x: int|
                    0 <= x < i && !#[trigger] peeled@[x] ==> exists|j: int|
                        0 <= j < n && linked(ends@, x, j) && !peeled@[j],
            decreases n - i,
        {
            if !peeled[i] && unpeeled_successor(ends, n, i, &peeled).is_none() {
                proof {
                    assert(!lists_index(order@, i as int));
                    assert forall|a: int, b: int|
                        0 <= a < b < order@.push(i).len() implies order@.push(i)[a] != order@.push(i)[b] by {
                        if b == order.len() {
                            assert(order@.push(i)[a] == order@[a]);
                        }
                    }
                    lemma_distinct_below(order@.push(i), n as int);
                    rank = rank.update(i as int, order.len() as int);
                }
                let ghost pre = peeled@;
                peeled.set(i, true);
                order.push(i);
                progress = true;
                proof {
                    assert forall|x: int, j: int|
                        0 <= x < n && peeled@[x] && #[trigger] linked(ends@, x, j) implies 0 <= j < n
                            && peeled@[j] && rank[j] < rank[x] by {
                        let k = choose|k: int| #![trigger ends@[k]] 0 <= k < ends.len() && ends@[k].0 as int == x && ends@[k].1 as int == j;
                        if x == i {
                            assert(pre[j]);
                        } else {
                            assert(pre[x]);
                        }
                    }
                }
            }
            i = i + 1;
        }
        if !progress {
            break;
        }
    }
    (peeled, Ghost(rank))
}

/// `path` is a walk of distinct unpeeled nodes along index pairs, and
/// `on_path` marks exactly its nodes.
spec fn walk_ok(ends: Seq<(usize, usize)>, n: int, peeled: Seq<bool>, path: Seq<usize>, on_path: Seq<bool>) -> bool {
    &&& peeled.len() == n
    &&& on_path.len() == n
    &&& path.len() >= 1
    &&& path.no_duplicates()
    &&& forall|p: int| 0 <= p < path.len() ==> (path[p] as int) < n && !peeled[path[p] as int]
    &&& forall|x: int| 0 <= x < n ==> (#[trigger] on_path[x] <==> lists_index(path, x))
    &&& forall|p: int| 0 <= p < path.len() - 1 ==> #[trigger] linked(ends, path[p] as int, path[p + 1] as int)
}

/// `path` visits distinct nodes below `n` along index pairs, and its last node
/// is linked to one of them.
spec fn index_lasso(ends: Seq<(usize, usize)>, n: int, path: Seq<usize>) -> bool {
    &&& path.len() >= 1
    &&& path.no_duplicates()
    &&& forall|p: int| 0 <= p < path.len() ==> (path[p] as int) < n
    &&& forall|p: int| 0 <= p < path.len() - 1 ==> #[trigger] linked(ends, path[p] as int, path[p + 1] as int)
    &&& exists|q: int| 0 <= q < path.len() && #[trigger] linked(ends, path[path.len() - 1] as int, path[q] as int)
}

/// From an unpeeled node, follows unpeeled successors until the next one is
/// already on the walk: the walk then closes on itself.
fn lasso_from(ends: &Vec<(usize, usize)>, n: usize, peeled: &Vec<bool>, start: usize) -> (path: Vec<usize>)
    requires
        ends_below(ends@, n as int),
        unpeeled_closed(ends@, n as int, peeled@),
        start < n,
        !peeled@[start as int],
    ensures
        index_lasso(ends@, n as int, path@),
        path@[0] == start,
{
    let mut on_path: Vec<bool> = Vec::new();
    while on_path.len() < n
        invariant
            on_path.len() <= n,
            start < n,
            forall|x: int| 0 <= x < on_path.len() ==> on_path@[x] == (x == start as int),
        decreases n - on_path.len(),
    {
        on_path.push(on_path.len() == start);
    }
    let mut path: Vec<usize> = Vec::new();
    path.push(start);
    assert(path@ =~= seq![start]);
    assert forall|x: int| 0 <= x < n implies (#[trigger] on_path@[x] <==> lists_index(path@, x)) by {
        if x == start as int {
            assert(path@[0] == start);
        }
    }
    loop
        invariant
            ends_below(ends@, n as int),
            unpeeled_closed(ends@, n as int, peeled@),
            walk_ok(ends@, n as int, peeled@, path@, on_path@),
            path@[0] == start,
        decreases n - path.len(),
    {
        proof {
            lemma_distinct_below(path@, n as int);
        }
        let cur = path[path.len() - 1];
        let next = match unpeeled_successor(ends, n, cur, peeled) {
            Some(j) => j,
            None => {
                proof {
                    let j = choose|j: int| 0 <= j < n && linked(ends@, cur as int, j) && !peeled@[j];
                    assert(peeled@[j]);
                }
                return path;
            },
        };
        if on_path[next] {
            proof {
                let q = choose|q: int| 0 <= q < path.len() && path@[q] as int == next as int;
                assert(linked(ends@, path@[path.len() - 1] as int, path@[q] as int));
            }
            return path;
        }
        let ghost before = path@;
        let ghost on_before = on_path@;
        proof {
            lemma_walk_extended(ends@, n as int, peeled@, before, on_before, next);
        }
        path.push(next);
        on_path.set(next, true);
    }
}

/// Appending `next`, an unpeeled successor of the walk's last node that is not
/// on the walk, keeps it a walk of at most `n` nodes.
proof fn lemma_walk_extended(
    ends: Seq<(usize, usize)>,
    n: int,
    peeled: Seq<bool>,
    before: Seq<usize>,
    on_before: Seq<bool>,
    next: usize,
)
    requires
        walk_ok(ends, n, peeled, before, on_before),
        (next as int) < n,
        !on_before[next as int],
        !peeled[next as int],
        linked(ends, before[before.len() - 1] as int, next as int),
    ensures
        walk_ok(ends, n, peeled, before.push(next), on_before.update(next as int, true)),
        before.push(next).len() <= n,
{
    let path = before.push(next);
    let on_path = on_before.update(next as int, true);
    assert(!lists_index(before, next as int));
    assert(path.no_duplicates()) by {
        assert forall|a: int, b: int| 0 <= a < b < path.len() implies path[a] != path[b] by {
            assert(path[a] == before[a]);
            if b < before.len() {
                assert(path[b] == before[b]);
            }
        }
    }
    assert forall|x: int| 0 <= x < n implies (#[trigger] on_path[x] <==> lists_index(path, x)) by {
        if x == next {
            assert(path[before.len() as int] == next);
        } else {
            if lists_index(path, x) {
                let p = choose|p: int| 0 <= p < path.len() && path[p] as int == x;
                assert(before[p] == path[p]);
            }
            if lists_index(before, x) {
                let p = choose|p: int| 0 <= p < before.len() && before[p] as int == x;
                assert(before[p] == path[p]);
            }
        }
    }
    assert forall|p: int| 0 <= p < path.len() - 1 implies #[trigger] linked(ends, path[p] as int, path[p + 1] as int) by {
        if p < before.len() - 1 {
            assert(path[p] == before[p]);
            assert(path[p + 1] == before[p + 1]);
        }
    }
    assert forall|p: int| 0 <= p < path.len() implies (path[p] as int) < n && !peeled[path[p] as int] by {
        if p < before.len() {
            assert(path[p] == before[p]);
        }
    }
    lemma_distinct_below(path, n);
}

/// The names at the positions of `path`.
fn names_along(names: &Vec<String>, path: &Vec<usize>) -> (r: Vec<String>)
    requires
        forall|p: int| 0 <= p < path.len() ==> (path@[p] as int) < names.len(),
    ensures
        r.len() == path.len(),
        forall|p: int| 0 <= p < path.len() ==> #[trigger] r@[p]@ == names@[path@[p] as int]@,
{
    let mut out: Vec<String> = Vec::new();
    let mut p: usize = 0;
    while p < path.len()
        invariant
            p <= path.len(),
            out.len() == p,
            forall|p: int| 0 <= p < path.len() ==> (path@[p] as int) < names.len(),
            forall|q: int| 0 <= q < p ==> #[trigger] out@[q]@ == names@[path@[q] as int]@,
        decreases path.len() - p,
    {
        out.push(names[path[p]].clone());
        p = p + 1;
    }
    out
}

/// An index lasso, read through the names, is a lasso of the edges.
proof fn lemma_lasso_names(
    edges: Seq<DependencyEdge>,
    names: Seq<Seq<char>>,
    ends: Seq<(usize, usize)>,
    path: Seq<usize>,
    cyc: Seq<Seq<char>>,
)
    requires
        indexes(edges, names, ends),
        index_lasso(ends, names.len() as int, path),
        cyc.len() == path.len(),
        forall|p: int| 0 <= p < path.len() ==> #[trigger] cyc[p] == names[path[p] as int],
    ensures
        is_lasso(edges, names[path[0] as int], cyc),
{
    assert(cyc[0] == names[path[0] as int]);
    assert forall|a: int, b: int| 0 <= a < cyc.len() && 0 <= b < cyc.len() && a != b implies cyc[a] != cyc[b] by {
        assert(cyc[a] == names[path[a] as int]);
        assert(cyc[b] == names[path[b] as int]);
        assert(path[a] != path[b]);
    }
    assert forall|i: int| 0 <= i < cyc.len() - 1 implies #[trigger] has_edge(edges, cyc[i], cyc[i + 1]) by {
        assert(linked(ends, path[i] as int, path[i + 1] as int));
        assert(cyc[i] == names[path[i] as int]);
        assert(cyc[i + 1] == names[path[i + 1] as int]);
        lemma_edge_linked(edges, names, ends, path[i] as int, path[i + 1] as int);
    }
    let last = path.len() - 1;
    let q = choose|q: int| 0 <= q < path.len() && #[trigger] linked(ends, path[last] as int, path[q] as int);
    assert(cyc[last] == names[path[last] as int]);
    assert(cyc[q] == names[path[q] as int]);
    lemma_edge_linked(edges, names, ends, path[last] as int, path[q] as int);
    assert(has_edge(edges, cyc[cyc.len() - 1], cyc[q]));
}

/// The position of `s` among `names`.
spec fn position_in(names: Seq<Seq<char>>, s: Seq<char>) -> int {
    choose|y: int| 0 <= y < names.len() && names[y] == s
}

/// The nodes of a lasso from a peeled node are peeled, and their ranks fall
/// along it.
proof fn lemma_lasso_peeled(
    edges: Seq<DependencyEdge>,
    names: Seq<Seq<char>>,
    ends: Seq<(usize, usize)>,
    peeled: Seq<bool>,
    rank: Seq<int>,
    path: Seq<Seq<char>>,
    start: int,
    i: int,
)
    requires
        indexes(edges, names, ends),
        ranked(ends, names.len() as int, peeled, rank),
        0 <= start < names.len(),
        peeled[start],
        is_lasso(edges, names[start], path),
        0 <= i < path.len(),
    ensures
        0 <= position_in(names, path[i]) < names.len(),
        names[position_in(names, path[i])] == path[i],
        peeled[position_in(names, path[i])],
        forall|l: int| 0 <= l <= i ==> rank[position_in(names, path[i])] <= rank[position_in(names, #[trigger] path[l])],
    decreases i,
{
    if i == 0 {
        assert(names[start] == path[0]);
        let y = position_in(names, path[0]);
        assert(names[y] == names[start]);
        assert(y == start);
    } else {
        lemma_lasso_peeled(edges, names, ends, peeled, rank, path, start, i - 1);
        let a = position_in(names, path[i - 1]);
        let m = i - 1;
        assert(has_edge(edges, path[m], path[m + 1]));
        let k = choose|k: int| #![trigger edges[k]] 0 <= k < edges.len() && edges[k].from@ == path[i - 1] && edges[k].to@ == path[i];
        let b = ends[k].1 as int;
        assert(names[b] == path[i]);
        let y = position_in(names, path[i]);
        assert(names[y] == names[b]);
        assert(y == b);
        lemma_edge_linked(edges, names, ends, a, y);
        assert(linked(ends, a, y));
        assert forall|l: int| 0 <= l <= i implies rank[y] <= rank[position_in(names, #[trigger] path[l])] by {
            if l < i {
                assert(rank[a] <= rank[position_in(names, path[l])]);
            }
        }
    }
}

/// No cycle can be reached from a peeled node.
proof fn lemma_peeled_acyclic(
    edges: Seq<DependencyEdge>,
    names: Seq<Seq<char>>,
    ends: Seq<(usize, usize)>,
    peeled: Seq<bool>,
    rank: Seq<int>,
    start: int,
)
    requires
        indexes(edges, names, ends),
        ranked(ends, names.len() as int, peeled, rank),
        0 <= start < names.len(),
        peeled[start],
    ensures
        !reaches_cycle(edges, names[start]),
{
    if reaches_cycle(edges, names[start]) {
        let path = choose|path: Seq<Seq<char>>| #[trigger] is_lasso(edges, names[start], path);
        let last = path.len() - 1;
        let j = choose|j: int| 0 <= j < path.len() && has_edge(edges, path[last], #[trigger] path[j]);
        lemma_lasso_peeled(edges, names, ends, peeled, rank, path, start, last);
        lemma_lasso_peeled(edges, names, ends, peeled, rank, path, start, j);
        let a = position_in(names, path[last]);
        let b = position_in(names, path[j]);
        lemma_edge_linked(edges, names, ends, a, b);
        assert(linked(ends, a, b));
        assert(rank[a] <= rank[b]);
    }
}

/// One more edge adds its source to the sources unless it is there.
proof fn lemma_sources_step(edges: Seq<DependencyEdge>, k: int)
    requires
        0 <= k < edges.len(),
    ensures
        sources(edges.take(k + 1)) == (if sources(edges.take(k)).contains(edges[k].from@) {
            sources(edges.take(k))
        } else {
            sources(edges.take(k)).push(edges[k].from@)
        }),
{
    assert(edges.take(k + 1).drop_last() =~= edges.take(k));
    assert(edges.take(k + 1).last() == edges[k]);
}

/// One more node adds itself to those from which a cycle can be reached,
/// where one can.
proof fn lemma_cyclic_step(edges: Seq<DependencyEdge>, nodes: Seq<Seq<char>>, a: Seq<char>)
    ensures
        cyclic_among(edges, nodes.push(a)) == (if reaches_cycle(edges, a) {
            cyclic_among(edges, nodes).push(a)
        } else {
            cyclic_among(edges, nodes)
        }),
{
    assert(nodes.push(a).drop_last() =~= nodes);
    assert(nodes.push(a).last() == a);
}

impl InsightsGenerator {
    /// The cycles of dependencies among `edges`: for each node with an edge
    /// out, in the order of its first edge, from which a cycle can be reached,
    /// a path of distinct nodes from it whose last node has an edge back to a
    /// node of the path, graded high.
    #[verifier::spinoff_prover]
    #[verifier::rlimit(40)]
    pub fn detect_circular_dependencies(edges: &Vec<DependencyEdge>) -> (r: Vec<CircularDependency>)
        ensures
            cycles_found(edges@, r@),
    {
        let (names, ends) = index_graph(edges);
        let ghost nv = texts(names@);
        let n = names.len();
        assert(ends_below(ends@, n as int));
        let (peeled, Ghost(rank)) = peel(&ends, n);
        let mut seen: Vec<String> = Vec::new();
        let mut out: Vec<CircularDependency> = Vec::new();
        let mut k: usize = 0;
        assert(texts(seen@) =~= sources(edges@.take(0)));
        while k < edges.len()
            invariant
                k <= edges.len(),
                nv == texts(names@),
                n == names.len(),
                indexes(edges@, nv, ends@),
                ends_below(ends@, n as int),
                ranked(ends@, n as int, peeled@, rank),
                unpeeled_closed(ends@, n as int, peeled@),
                texts(seen@) == sources(edges@.take(k as int)),
                out.len() == cyclic_among(edges@, texts(seen@)).len(),
                forall|i: int|
                    #![trigger out@[i]]
                    0 <= i < out.len() ==> out@[i].severity == Severity::High && is_lasso(
                        edges@,
                        cyclic_among(edges@, texts(seen@))[i],
                        texts(out@[i].cycle@),
                    ),
            decreases edges.len() - k,
        {
            let ghost before_seen = texts(seen@);
            let ghost before_out = out@;
            let ghost from = edges@[k as int].from@;
            proof {
                lemma_sources_step(edges@, k as int);
            }
            match position_of_name(&seen, edges[k].from.as_str()) {
                Some(j) => {
                    assert(texts(seen@)[j as int] == from);
                },
                None => {
                    seen.push(edges[k].from.clone());
                    assert(texts(seen@) =~= before_seen.push(from));
                    proof {
                        lemma_cyclic_step(edges@, before_seen, from);
                    }
                    let x = ends[k].0;
                    assert(nv[x as int] == from);
                    if !peeled[x] {
                        let path = lasso_from(&ends, n, &peeled, x);
                        let cycle = names_along(&names, &path);
                        proof {
                            assert forall|p: int| 0 <= p < path.len() implies #[trigger] texts(cycle@)[p]
                                == nv[path@[p] as int] by {
                                assert(texts(cycle@)[p] == cycle@[p]@);
                            }
                            lemma_lasso_names(edges@, nv, ends@, path@, texts(cycle@));
                            assert(is_lasso(edges@, from, texts(cycle@)));
                        }
                        out.push(CircularDependency { cycle, severity: Severity::High });
                        assert forall|i: int|
                            #![trigger out@[i]]
                            0 <= i < out.len() implies out@[i].severity == Severity::High && is_lasso(
                                edges@,
                                cyclic_among(edges@, texts(seen@))[i],
                                texts(out@[i].cycle@),
                            ) by {
                            if i < before_out.len() {
                                assert(out@[i] == before_out[i]);
                            }
                        }
                    } else {
                        proof {
                            lemma_peeled_acyclic(edges@, nv, ends@, peeled@, rank, x as int);
                        }
                    }
                },
            }
            k = k + 1;
        }
        assert(edges@.take(edges.len() as int) =~= edges@);
        out
    }

    /// The classes of `summary` as a dependency graph: a node for each class,
    /// an inheritance edge for each class that extends another, and the cycles
    /// among those edges.
    pub fn build_dependency_graph(summary: &StructuralSummary) -> (r: DependencyGraph)
        ensures
            class_graph_of(*summary, r.nodes@, r.edges@),
            cycles_found(r.edges@, r.circular_dependencies@),
    {
        let (nodes, edges) = Self::class_dependencies(summary);
        let circular = Self::detect_circular_dependencies(&edges);
        DependencyGraph { nodes, edges, circular_dependencies: circular }
    }

    /// The architectural layers: for now the one `Domain` layer, which may
    /// depend on `Infrastructure`, with no components and no violations.
    pub fn identify_architectural_layers(_summary: &StructuralSummary) -> (r: Vec<ArchitecturalLayer>)
        ensures
            r.len() == 1,
            r@[0].name@ == "Domain"@,
            r@[0].components.len() == 0,
            texts(r@[0].allowed_dependencies@) == seq!["Infrastructure"@],
            r@[0].violations.len() == 0,
    {
        let mut allowed: Vec<String> = Vec::new();
        allowed.push(String::from_str("Infrastructure"));
        assert(texts(allowed@) =~= seq!["Infrastructure"@]);
        let mut layers: Vec<ArchitecturalLayer> = Vec::new();
        layers.push(
            ArchitecturalLayer {
                name: String::from_str("Domain"),
                components: Vec::new(),
                allowed_dependencies: allowed,
                violations: Vec::new(),
            },
        );
        layers
    }
}

} // verus!
