//! Whether a directed graph on numbered nodes has a cycle.
use vstd::prelude::*;

verus! {

/// Every edge goes from a lower rank to a higher one.
pub open spec fn spec_ranks_edges(edges: Seq<(usize, usize)>, rank: spec_fn(int) -> int) -> bool {
    forall|i: int| 0 <= i < edges.len() ==> rank(#[trigger] edges[i].0 as int) < rank(edges[i].1 as int)
}

/// A graph is acyclic exactly when its nodes can be ranked so that every edge
/// goes forward.
pub open spec fn spec_acyclic(edges: Seq<(usize, usize)>) -> bool {
    exists|rank: spec_fn(int) -> int| #[trigger] spec_ranks_edges(edges, rank)
}

/// How many of the first `k` flags are cleared.
pub open spec fn spec_count_cleared(alive: Seq<bool>, k: int) -> int
    decreases k,
{
    if k <= 0 {
        0
    } else {
        spec_count_cleared(alive, k - 1) + if alive[k - 1] { 0int } else { 1int }
    }
}

proof fn lemma_count_bounds(alive: Seq<bool>, k: int)
    requires
        0 <= k,
    ensures
        0 <= spec_count_cleared(alive, k) <= k,
    decreases k,
{
    if k > 0 {
        lemma_count_bounds(alive, k - 1);
    }
}

proof fn lemma_count_clear(alive: Seq<bool>, v: int, k: int)
    requires
        0 <= v < alive.len(),
        alive[v],
        0 <= k <= alive.len(),
    ensures
        spec_count_cleared(alive.update(v, false), k) == spec_count_cleared(alive, k) + if v < k { 1int } else { 0int },
    decreases k,
{
    if k > 0 {
        lemma_count_clear(alive, v, k - 1);
    }
}

/// Among the live nodes below `k`, one whose rank is least, if any is live.
proof fn lemma_least_live(alive: Seq<bool>, rank: spec_fn(int) -> int, k: int) -> (m: int)
    requires
        0 <= k <= alive.len(),
        exists|v: int| 0 <= v < k && alive[v],
    ensures
        0 <= m < k,
        alive[m],
        forall|w: int| 0 <= w < k && alive[w] ==> rank(m) <= rank(w),
    decreases k,
{
    if exists|v: int| 0 <= v < k - 1 && alive[v] {
        let m1 = lemma_least_live(alive, rank, k - 1);
        if alive[k - 1] && rank(k - 1) < rank(m1) {
            k - 1
        } else {
            m1
        }
    } else {
        k - 1
    }
}

/// For each node, whether some live node points at it.
fn live_predecessors(n: usize, alive: &Vec<bool>, edges: &Vec<(usize, usize)>) -> (has_pred: Vec<bool>)
    requires
        alive@.len() == n,
        forall|i: int| 0 <= i < edges@.len() ==> (#[trigger] edges@[i]).0 < n && edges@[i].1 < n,
    ensures
        has_pred@.len() == n,
        forall|w: int| 0 <= w < n ==> (#[trigger] has_pred@[w] <==> exists|i: int| 0 <= i < edges@.len()
            && (#[trigger] edges@[i]).1 == w && alive@[edges@[i].0 as int]),
{
    let mut has_pred: Vec<bool> = Vec::new();
    let mut v: usize = 0;
    while v < n
        invariant
            v <= n,
            has_pred@.len() == v,
            forall|w: int| 0 <= w < v ==> !has_pred@[w],
        decreases n - v,
    {
        has_pred.push(false);
        v += 1;
    }
    let mut e: usize = 0;
    while e < edges.len()
        invariant
            forall|i: int| 0 <= i < edges@.len() ==> (#[trigger] edges@[i]).0 < n && edges@[i].1 < n,
            e <= edges.len(),
            has_pred@.len() == n,
            alive@.len() == n,
            forall|w: int| 0 <= w < n ==> (#[trigger] has_pred@[w] <==> exists|i: int| 0 <= i < e
                && (#[trigger] edges@[i]).1 == w && alive@[edges@[i].0 as int]),
        decreases edges.len() - e,
    {
        let (a, b) = edges[e];
        if alive[a] {
            has_pred.set(b, true);
        }
        proof {
            assert forall|w: int| 0 <= w < n implies (#[trigger] has_pred@[w] <==> exists|i: int| 0 <= i < e + 1
                && (#[trigger] edges@[i]).1 == w && alive@[edges@[i].0 as int]) by {
                if has_pred@[w] && !(w == b && alive@[a as int]) {
                    let i = choose|i: int| 0 <= i < e && (#[trigger] edges@[i]).1 == w && alive@[edges@[i].0 as int];
                    assert(0 <= i < e + 1);
                }
                if w == b && alive@[a as int] {
                    assert(edges@[e as int].1 == w && alive@[edges@[e as int].0 as int]);
                }
            }
        }
        e += 1;
    }
    has_pred
}

/// Remove, at this round's rank, every live node nothing live points at.
fn remove_sources(n: usize, alive: &mut Vec<bool>, rank: &mut Vec<u64>, has_pred: &Vec<bool>, round: u64, cleared: usize) -> (now_cleared: usize)
    requires
        old(alive)@.len() == n,
        old(rank)@.len() == n,
        has_pred@.len() == n,
        cleared as int == spec_count_cleared(old(alive)@, n as int),
        cleared <= n,
    ensures
        final(alive)@.len() == n,
        final(rank)@.len() == n,
        forall|w: int| 0 <= w < n ==> (#[trigger] final(alive)@[w] <==> old(alive)@[w] && has_pred@[w]),
        forall|w: int| 0 <= w < n && !(old(alive)@[w] && !has_pred@[w]) ==> #[trigger] final(rank)@[w] == old(rank)@[w],
        forall|w: int| 0 <= w < n && old(alive)@[w] && !has_pred@[w] ==> #[trigger] final(rank)@[w] == round,
        now_cleared as int == spec_count_cleared(final(alive)@, n as int),
        now_cleared <= n,
        now_cleared >= cleared,
        (now_cleared == cleared) <==> (forall|w: int| 0 <= w < n && old(alive)@[w] ==> has_pred@[w]),
{
    let ghost first = alive@;
    let ghost first_rank = rank@;
    let mut now_cleared = cleared;
    let mut v: usize = 0;
    while v < n
        invariant
            v <= n,
            alive@.len() == n,
            rank@.len() == n,
            has_pred@.len() == n,
            first.len() == n,
            first_rank.len() == n,
            forall|w: int| 0 <= w < n ==> (#[trigger] alive@[w] <==> if w < v {
                first[w] && has_pred@[w]
            } else {
                first[w]
            }),
            forall|w: int| 0 <= w < n && !(w < v && first[w] && !has_pred@[w]) ==> #[trigger] rank@[w] == first_rank[w],
            forall|w: int| 0 <= w < v && first[w] && !has_pred@[w] ==> #[trigger] rank@[w] == round,
            now_cleared as int == spec_count_cleared(alive@, n as int),
            now_cleared <= n,
            now_cleared >= cleared,
            (now_cleared == cleared) <==> (forall|w: int| 0 <= w < v && first[w] ==> has_pred@[w]),
        decreases n - v,
    {
        if alive[v] && !has_pred[v] {
            proof {
                lemma_count_clear(alive@, v as int, n as int);
                lemma_count_bounds(alive@.update(v as int, false), n as int);
            }
            alive.set(v, false);
            rank.set(v, round);
            now_cleared += 1;
        }
        v += 1;
    }
    now_cleared
}

/// Whether the graph on nodes `0..n` has a cycle, found by removing, round by
/// round, every node no live node points at. A cycle remains exactly when a
/// round removes nothing while nodes are left.
pub fn has_cycle(n: usize, edges: &Vec<(usize, usize)>) -> (r: bool)
    requires
        forall|i: int| 0 <= i < edges@.len() ==> (#[trigger] edges@[i]).0 < n && edges@[i].1 < n,
    ensures
        r == !spec_acyclic(edges@),
{
    let mut alive: Vec<bool> = Vec::new();
    let mut rank: Vec<u64> = Vec::new();
    let mut k: usize = 0;
    while k < n
        invariant
            k <= n,
            alive@.len() == k,
            rank@.len() == k,
            forall|v: int| 0 <= v < k ==> alive@[v],
        decreases n - k,
    {
        alive.push(true);
        rank.push(0);
        k += 1;
    }
    let mut round: u64 = 0;
    let mut cleared: usize = 0;
    proof {
        lemma_zero_count(alive@, n as int);
    }
    loop
        invariant
            forall|i: int| 0 <= i < edges@.len() ==> (#[trigger] edges@[i]).0 < n && edges@[i].1 < n,
            alive@.len() == n,
            rank@.len() == n,
            cleared as int == spec_count_cleared(alive@, n as int),
            cleared <= n,
            round <= cleared,
            forall|v: int| 0 <= v < n && !alive@[v] ==> rank@[v] < round,
            forall|i: int| 0 <= i < edges@.len() && !alive@[(#[trigger] edges@[i]).1 as int]
                ==> !alive@[edges@[i].0 as int] && rank@[edges@[i].0 as int] < rank@[edges@[i].1 as int],
        decreases n - cleared,
    {
        let ghost start = alive@;
        let ghost start_rank = rank@;
        let has_pred = live_predecessors(n, &alive, edges);
        let now_cleared = remove_sources(n, &mut alive, &mut rank, &has_pred, round, cleared);
        proof {
            assert forall|i: int| 0 <= i < edges@.len() && !alive@[(#[trigger] edges@[i]).1 as int]
                implies !alive@[edges@[i].0 as int] && rank@[edges@[i].0 as int] < rank@[edges@[i].1 as int] by {
                let a = edges@[i].0 as int;
                let b = edges@[i].1 as int;
                if start[b] && start[a] {
                    assert(has_pred@[b]);
                }
            }
        }
        if now_cleared == cleared {
            proof {
                if exists|w: int| 0 <= w < n && alive@[w] {
                    if spec_acyclic(edges@) {
                        let f = choose|f: spec_fn(int) -> int| #[trigger] spec_ranks_edges(edges@, f);
                        let m = lemma_least_live(alive@, f, n as int);
                        assert(has_pred@[m]);
                        let i = choose|i: int| 0 <= i < edges@.len() && (#[trigger] edges@[i]).1 == m && start[edges@[i].0 as int];
                        let u = edges@[i].0 as int;
                        assert(alive@[u]);
                        assert(f(u) < f(m));
                        assert(f(m) <= f(u));
                    }
                } else {
                    let f = |x: int| if 0 <= x < n { rank@[x] as int } else { 0int };
                    assert(spec_ranks_edges(edges@, f)) by {
                        assert forall|i: int| 0 <= i < edges@.len() implies f(#[trigger] edges@[i].0 as int) < f(edges@[i].1 as int) by {
                            assert(!alive@[edges@[i].1 as int]);
                        }
                    }
                }
                assert((exists|w: int| 0 <= w < n && alive@[w]) == !spec_acyclic(edges@));
            }
            let mut w: usize = 0;
            while w < n
                invariant
                    w <= n,
                    alive@.len() == n,
                    forall|x: int| 0 <= x < w ==> !alive@[x],
                    (exists|x: int| 0 <= x < n && alive@[x]) == !spec_acyclic(edges@),
                decreases n - w,
            {
                if alive[w] {
                    return true;
                }
                w += 1;
            }
            return false;
        }
        cleared = now_cleared;
        round += 1;
    }
}

proof fn lemma_zero_count(alive: Seq<bool>, k: int)
    requires
        0 <= k <= alive.len(),
        forall|v: int| 0 <= v < alive.len() ==> alive[v],
    ensures
        spec_count_cleared(alive, k) == 0,
    decreases k,
{
    if k > 0 {
        lemma_zero_count(alive, k - 1);
    }
}

} // verus!
