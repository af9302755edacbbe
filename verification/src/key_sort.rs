use crate::text::{
    lemma_text_le_antisymmetric, lemma_text_le_reflexive, lemma_text_le_total, lemma_text_le_transitive,
    same_text, str_le, text_le,
};
use vstd::prelude::*;

verus! {

/// `a` comes strictly before `b` in lexicographic order.
pub open spec fn text_lt(a: Seq<char>, b: Seq<char>) -> bool {
    text_le(a, b) && a != b
}

/// Entry `i` of `ks` comes before entry `j`: by the first text, then by the
/// second, then by position, as a stable sort on the two texts leaves them.
pub open spec fn key_before(ks: Seq<(Seq<char>, Seq<char>)>, i: int, j: int) -> bool {
    ||| text_lt(ks[i].0, ks[j].0)
    ||| (ks[i].0 == ks[j].0 && text_lt(ks[i].1, ks[j].1))
    ||| (ks[i].0 == ks[j].0 && ks[i].1 == ks[j].1 && i < j)
}

/// The positions `0 .. n`, in order.
pub open spec fn positions(n: nat) -> Seq<usize> {
    Seq::new(n, |i: int| i as usize)
}

/// `o` lists each position of `ks` once, in the order of `key_before`.
pub open spec fn is_key_order(ks: Seq<(Seq<char>, Seq<char>)>, o: Seq<usize>) -> bool {
    &&& o.to_multiset() == positions(ks.len()).to_multiset()
    &&& forall|p: int| 0 <= p < o.len() ==> (o[p] as int) < ks.len()
    &&& forall|p: int, q: int|
        0 <= p < q < o.len() ==> key_before(ks, #[trigger] o[p] as int, #[trigger] o[q] as int)
}

/// The keys of `v` as texts.
pub open spec fn key_texts(v: Seq<(String, String)>) -> Seq<(Seq<char>, Seq<char>)> {
    v.map_values(|e: (String, String)| (e.0@, e.1@))
}

/// No entry comes before itself, and of two entries at most one comes first.
pub proof fn lemma_key_before_asymmetric(ks: Seq<(Seq<char>, Seq<char>)>, i: int, j: int)
    requires
        key_before(ks, i, j),
    ensures
        !key_before(ks, j, i),
{
    if key_before(ks, j, i) {
        if text_le(ks[i].0, ks[j].0) && text_le(ks[j].0, ks[i].0) {
            lemma_text_le_antisymmetric(ks[i].0, ks[j].0);
        }
        if text_le(ks[i].1, ks[j].1) && text_le(ks[j].1, ks[i].1) {
            lemma_text_le_antisymmetric(ks[i].1, ks[j].1);
        }
    }
}

/// Of two different entries, one comes first.
pub proof fn lemma_key_before_total(ks: Seq<(Seq<char>, Seq<char>)>, i: int, j: int)
    requires
        i != j,
    ensures
        key_before(ks, i, j) || key_before(ks, j, i),
{
    lemma_text_le_total(ks[i].0, ks[j].0);
    lemma_text_le_total(ks[i].1, ks[j].1);
}

/// Coming first is transitive.
pub proof fn lemma_key_before_transitive(ks: Seq<(Seq<char>, Seq<char>)>, i: int, j: int, k: int)
    requires
        key_before(ks, i, j),
        key_before(ks, j, k),
    ensures
        key_before(ks, i, k),
{
    let (a, b, c) = (ks[i].0, ks[j].0, ks[k].0);
    let (x, y, z) = (ks[i].1, ks[j].1, ks[k].1);
    if text_le(a, b) && text_le(b, c) {
        lemma_text_le_transitive(a, b, c);
        if a == c {
            lemma_text_le_antisymmetric(a, b);
        }
    }
    if text_le(x, y) && text_le(y, z) {
        lemma_text_le_transitive(x, y, z);
        if x == z {
            lemma_text_le_antisymmetric(x, y);
        }
    }
}

/// Whether entry `i` of `ks` comes before entry `j`.
fn key_precedes(ks: &Vec<(String, String)>, i: usize, j: usize) -> (r: bool)
    requires
        i < ks.len(),
        j < ks.len(),
    ensures
        r == key_before(key_texts(ks@), i as int, j as int),
{
    let a = ks[i].0.as_str();
    let b = ks[j].0.as_str();
    if !same_text(a, b) {
        return str_le(a, b);
    }
    let c = ks[i].1.as_str();
    let d = ks[j].1.as_str();
    if !same_text(c, d) {
        return str_le(c, d);
    }
    i < j
}

/// The positions of `ks`, ordered by their keys, equal keys in the order they
/// come.
pub fn key_order(ks: &Vec<(String, String)>) -> (r: Vec<usize>)
    ensures
        is_key_order(key_texts(ks@), r@),
{
    broadcast use vstd::seq_lib::group_to_multiset_ensures;

    let ghost kt = key_texts(ks@);
    let n = ks.len();
    let mut rest: Vec<usize> = Vec::new();
    while rest.len() < n
        invariant
            rest.len() <= n,
            rest@ == positions(rest.len() as nat),
        decreases n - rest.len(),
    {
        let ghost before = rest@;
        rest.push(rest.len());
        assert(rest@ =~= positions(rest.len() as nat));
    }
    let mut out: Vec<usize> = Vec::new();
    proof {
        assert(out@.to_multiset() =~= vstd::multiset::Multiset::empty());
        assert(rest@.no_duplicates());
    }
    while rest.len() > 0
        invariant
            n == ks.len(),
            kt == key_texts(ks@),
            out@.to_multiset().add(rest@.to_multiset()) == positions(n as nat).to_multiset(),
            rest@.no_duplicates(),
            forall|p: int| 0 <= p < out.len() ==> (out@[p] as int) < n,
            forall|p: int| 0 <= p < rest.len() ==> (rest@[p] as int) < n,
            forall|p: int, q: int| 0 <= p < q < out.len() ==> key_before(kt, #[trigger] out@[p] as int, #[trigger] out@[q] as int),
            forall|p: int, q: int|
                0 <= p < out.len() && 0 <= q < rest.len() ==> key_before(kt, #[trigger] out@[p] as int, #[trigger] rest@[q] as int),
        decreases rest.len(),
    {
        let mut m: usize = 0;
        let mut k: usize = 1;
        while k < rest.len()
            invariant
                n == ks.len(),
                kt == key_texts(ks@),
                rest@.no_duplicates(),
                forall|p: int| 0 <= p < rest.len() ==> (rest@[p] as int) < n,
                0 <= m < k,
                1 <= k <= rest.len(),
                forall|j: int| 0 <= j < k && j != m ==> key_before(kt, rest@[m as int] as int, #[trigger] rest@[j] as int),
            decreases rest.len() - k,
        {
            if !key_precedes(ks, rest[m], rest[k]) {
                proof {
                    assert(rest@[m as int] != rest@[k as int]);
                    lemma_key_before_total(kt, rest@[m as int] as int, rest@[k as int] as int);
                    assert forall|j: int| 0 <= j < k + 1 && j != k implies key_before(
                        kt,
                        rest@[k as int] as int,
                        #[trigger] rest@[j] as int,
                    ) by {
                        if j != m {
                            lemma_key_before_transitive(kt, rest@[k as int] as int, rest@[m as int] as int, rest@[j] as int);
                        }
                    }
                }
                m = k;
            }
            k = k + 1;
        }
        let ghost before_rest = rest@;
        let ghost before_out = out@;
        let x = rest.remove(m);
        proof {
            vstd::seq_lib::to_multiset_remove(before_rest, m as int);
            assert(before_rest[m as int] == x);
            assert(before_rest.contains(x));
            vstd::seq_lib::to_multiset_contains(before_rest, x);
            vstd::seq_lib::to_multiset_build(before_out, x);
        }
        out.push(x);
        proof {
            assert(out@ =~= before_out.push(x));
            assert(rest@ =~= before_rest.remove(m as int));
            assert(out@.to_multiset().add(rest@.to_multiset()) =~= positions(n as nat).to_multiset());
            assert(rest@.no_duplicates()) by {
                assert forall|a: int, b: int| 0 <= a < b < rest.len() implies rest@[a] != rest@[b] by {
                    let aa = if a < m { a } else { a + 1 };
                    let bb = if b < m { b } else { b + 1 };
                    assert(rest@[a] == before_rest[aa]);
                    assert(rest@[b] == before_rest[bb]);
                }
            }
            assert forall|p: int| 0 <= p < rest.len() implies (rest@[p] as int) < n by {
                let pp = if p < m { p } else { p + 1 };
                assert(rest@[p] == before_rest[pp]);
            }
            assert forall|p: int| 0 <= p < out.len() implies (out@[p] as int) < n by {
                if p < before_out.len() {
                    assert(out@[p] == before_out[p]);
                }
            }
            assert forall|p: int, q: int| 0 <= p < q < out.len() implies key_before(
                kt,
                #[trigger] out@[p] as int,
                #[trigger] out@[q] as int,
            ) by {
                assert(out@[p] == before_out[p]);
                if q < before_out.len() {
                    assert(out@[q] == before_out[q]);
                } else {
                    assert(out@[q] == before_rest[m as int]);
                }
            }
            assert forall|p: int, q: int| 0 <= p < out.len() && 0 <= q < rest.len() implies key_before(
                kt,
                #[trigger] out@[p] as int,
                #[trigger] rest@[q] as int,
            ) by {
                let qq = if q < m { q } else { q + 1 };
                assert(rest@[q] == before_rest[qq]);
                if p < before_out.len() {
                    assert(out@[p] == before_out[p]);
                } else {
                    assert(out@[p] == before_rest[m as int]);
                }
            }
        }
    }
    proof {
        assert(rest@ =~= Seq::<usize>::empty());
        assert(rest@.to_multiset() =~= vstd::multiset::Multiset::empty());
        assert(out@.to_multiset().add(rest@.to_multiset()) =~= out@.to_multiset());
    }
    out
}

/// The order of `is_key_order` is unique: two such orders of the same entries
/// are equal.
pub proof fn lemma_key_order_unique(ks: Seq<(Seq<char>, Seq<char>)>, a: Seq<usize>, b: Seq<usize>)
    requires
        a.to_multiset() == b.to_multiset(),
        forall|p: int, q: int| 0 <= p < q < a.len() ==> key_before(ks, #[trigger] a[p] as int, #[trigger] a[q] as int),
        forall|p: int, q: int| 0 <= p < q < b.len() ==> key_before(ks, #[trigger] b[p] as int, #[trigger] b[q] as int),
    ensures
        a == b,
    decreases a.len(),
{
    broadcast use vstd::seq_lib::group_to_multiset_ensures;

    vstd::seq_lib::to_multiset_len(a);
    vstd::seq_lib::to_multiset_len(b);
    if a.len() == 0 {
        assert(a =~= b);
    } else {
        let x = a[0];
        let y = b[0];
        vstd::seq_lib::to_multiset_contains(a, x);
        vstd::seq_lib::to_multiset_contains(b, y);
        assert(a.contains(x));
        assert(b.contains(y));
        assert(b.to_multiset().count(x) > 0);
        assert(a.to_multiset().count(y) > 0);
        assert(b.contains(x));
        assert(a.contains(y));
        let j = choose|j: int| 0 <= j < b.len() && b[j] == x;
        let k = choose|k: int| 0 <= k < a.len() && a[k] == y;
        if x != y {
            assert(j != 0 && k != 0);
            assert(key_before(ks, b[0] as int, b[j] as int));
            assert(key_before(ks, a[0] as int, a[k] as int));
            lemma_key_before_asymmetric(ks, x as int, y as int);
        }
        vstd::seq_lib::to_multiset_remove(a, 0);
        vstd::seq_lib::to_multiset_remove(b, 0);
        assert(a.remove(0) =~= a.drop_first());
        assert(b.remove(0) =~= b.drop_first());
        assert forall|p: int, q: int| 0 <= p < q < a.drop_first().len() implies key_before(
            ks,
            #[trigger] a.drop_first()[p] as int,
            #[trigger] a.drop_first()[q] as int,
        ) by {
            assert(a.drop_first()[p] == a[p + 1]);
            assert(a.drop_first()[q] == a[q + 1]);
        }
        assert forall|p: int, q: int| 0 <= p < q < b.drop_first().len() implies key_before(
            ks,
            #[trigger] b.drop_first()[p] as int,
            #[trigger] b.drop_first()[q] as int,
        ) by {
            assert(b.drop_first()[p] == b[p + 1]);
            assert(b.drop_first()[q] == b[q + 1]);
        }
        lemma_key_order_unique(ks, a.drop_first(), b.drop_first());
        assert(a =~= seq![x] + a.drop_first());
        assert(b =~= seq![y] + b.drop_first());
    }
}

} // verus!
