//! Paths in a graph given by its edge relation.

use vstd::prelude::*;

verus! {

/// The step of `path` that starts at place `i` is an edge.
pub open spec fn step<N>(edge: spec_fn(N, N) -> bool, path: Seq<N>, i: int) -> bool {
    edge(path[i], path[i + 1])
}

/// Each node of `path` has an edge to the next.
pub open spec fn is_path<N>(edge: spec_fn(N, N) -> bool, path: Seq<N>) -> bool {
    &&& path.len() > 0
    &&& forall|i: int| 0 <= i < path.len() - 1 ==> #[trigger] step(edge, path, i)
}

/// `path` leads from `a` to `b`.
pub open spec fn leads<N>(edge: spec_fn(N, N) -> bool, path: Seq<N>, a: N, b: N) -> bool {
    is_path(edge, path) && path[0] == a && path.last() == b
}

/// Some path, of no edge or more, leads from `a` to `b`.
pub open spec fn reaches<N>(edge: spec_fn(N, N) -> bool, a: N, b: N) -> bool {
    exists|path: Seq<N>| leads(edge, path, a, b)
}

/// No edge lies on a cycle.
pub open spec fn acyclic<N>(edge: spec_fn(N, N) -> bool) -> bool {
    forall|a: N, b: N| #[trigger] edge(a, b) ==> !reaches(edge, b, a)
}

/// Every node reaches itself.
pub proof fn lemma_reaches_self<N>(edge: spec_fn(N, N) -> bool, a: N)
    ensures
        reaches(edge, a, a),
{
    assert(leads(edge, seq![a], a, a));
}

/// Paths compose.
pub proof fn lemma_reaches_transitive<N>(edge: spec_fn(N, N) -> bool, a: N, b: N, c: N)
    requires
        reaches(edge, a, b),
        reaches(edge, b, c),
    ensures
        reaches(edge, a, c),
{
    let p = choose|p: Seq<N>| leads(edge, p, a, b);
    let q = choose|q: Seq<N>| leads(edge, q, b, c);
    let r = p + q.drop_first();
    assert forall|i: int| 0 <= i < r.len() - 1 implies #[trigger] step(edge, r, i) by {
        if i < p.len() - 1 {
            assert(step(edge, p, i));
        } else {
            let j = i - (p.len() - 1);
            assert(r[i] == q[j]);
            assert(r[i + 1] == q[j + 1]);
            assert(step(edge, q, j));
        }
    }
    if q.len() == 1 {
        assert(r =~= p);
    }
    assert(leads(edge, r, a, c));
}

/// An edge is a path.
pub proof fn lemma_reaches_edge<N>(edge: spec_fn(N, N) -> bool, a: N, b: N)
    requires
        edge(a, b),
    ensures
        reaches(edge, a, b),
{
    let p = seq![a, b];
    assert forall|i: int| 0 <= i < p.len() - 1 implies #[trigger] step(edge, p, i) by {}
    assert(leads(edge, p, a, b));
}

/// What can be reached from a node of a set that no edge leaves lies in the set.
pub proof fn lemma_closed_contains_reached<N>(
    edge: spec_fn(N, N) -> bool,
    inside: spec_fn(N) -> bool,
    a: N,
    b: N,
)
    requires
        inside(a),
        forall|x: N, y: N| inside(x) && #[trigger] edge(x, y) ==> inside(y),
        reaches(edge, a, b),
    ensures
        inside(b),
{
    let p = choose|p: Seq<N>| leads(edge, p, a, b);
    lemma_path_stays_inside(edge, inside, p, p.len() - 1);
}

proof fn lemma_path_stays_inside<N>(
    edge: spec_fn(N, N) -> bool,
    inside: spec_fn(N) -> bool,
    p: Seq<N>,
    k: int,
)
    requires
        is_path(edge, p),
        inside(p[0]),
        forall|x: N, y: N| inside(x) && #[trigger] edge(x, y) ==> inside(y),
        0 <= k < p.len(),
    ensures
        inside(p[k]),
    decreases k,
{
    if k > 0 {
        lemma_path_stays_inside(edge, inside, p, k - 1);
        assert(step(edge, p, k - 1));
    }
}

/// A path in a graph is a path in every graph with more edges.
pub proof fn lemma_reaches_monotone<N>(
    fewer: spec_fn(N, N) -> bool,
    more: spec_fn(N, N) -> bool,
    a: N,
    b: N,
)
    requires
        forall|x: N, y: N| #[trigger] fewer(x, y) ==> more(x, y),
        reaches(fewer, a, b),
    ensures
        reaches(more, a, b),
{
    let p = choose|p: Seq<N>| leads(fewer, p, a, b);
    assert forall|i: int| 0 <= i < p.len() - 1 implies #[trigger] step(more, p, i) by {
        assert(step(fewer, p, i));
    }
    assert(leads(more, p, a, b));
}

/// Taking edges away from an acyclic graph leaves it acyclic.
pub proof fn lemma_acyclic_subgraph<N>(
    fewer: spec_fn(N, N) -> bool,
    more: spec_fn(N, N) -> bool,
)
    requires
        forall|x: N, y: N| #[trigger] fewer(x, y) ==> more(x, y),
        acyclic(more),
    ensures
        acyclic(fewer),
{
    assert forall|a: N, b: N| #[trigger] fewer(a, b) implies !reaches(fewer, b, a) by {
        assert(more(a, b));
        if reaches(fewer, b, a) {
            lemma_reaches_monotone(fewer, more, b, a);
        }
    }
}

/// Edges that close no cycle in the enlarged graph keep an acyclic graph acyclic.
pub proof fn lemma_acyclic_extension<N>(
    base: spec_fn(N, N) -> bool,
    extra: spec_fn(N, N) -> bool,
    both: spec_fn(N, N) -> bool,
)
    requires
        acyclic(base),
        forall|x: N, y: N| #[trigger] both(x, y) <==> base(x, y) || extra(x, y),
        forall|x: N, y: N| #[trigger] extra(x, y) ==> !reaches(both, y, x),
    ensures
        acyclic(both),
{
    assert forall|a: N, b: N| #[trigger] both(a, b) implies !reaches(both, b, a) by {
        if reaches(both, b, a) {
            assert(!extra(a, b));
            assert(base(a, b));
            let p = choose|p: Seq<N>| leads(both, p, b, a);
            if forall|i: int| 0 <= i < p.len() - 1 ==> #[trigger] step(base, p, i) {
                assert(leads(base, p, b, a));
                assert(false);
            } else {
                let i = choose|i: int| 0 <= i < p.len() - 1 && !#[trigger] step(base, p, i);
                assert(step(both, p, i));
                let f = p[i];
                let t = p[i + 1];
                assert(extra(f, t));
                let head = p.take(i + 1);
                assert forall|j: int| 0 <= j < head.len() - 1 implies #[trigger] step(
                    both,
                    head,
                    j,
                ) by {
                    assert(step(both, p, j));
                }
                assert(leads(both, head, b, f));
                let tail = p.skip(i + 1);
                assert forall|j: int| 0 <= j < tail.len() - 1 implies #[trigger] step(
                    both,
                    tail,
                    j,
                ) by {
                    assert(step(both, p, i + 1 + j));
                }
                assert(leads(both, tail, t, a));
                lemma_reaches_edge(both, a, b);
                lemma_reaches_transitive(both, t, a, b);
                lemma_reaches_transitive(both, t, b, f);
            }
        }
    }
}

} // verus!
