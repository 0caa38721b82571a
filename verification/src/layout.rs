//! Deterministic layering of diagram nodes.
//!
//! Nodes are numbered in the order the caller lists them. Kahn layering puts
//! every node whose ancestors form no cycle one level below its deepest
//! predecessor; the remaining (cyclic) nodes are completed by a breadth-first
//! spanning hierarchy in caller order, so every level stays below the node
//! count. Coordinates are computed elsewhere from the levels and node sizes.

use vstd::prelude::*;

verus! {

/// `adj[u][v]` says that an edge leads from node `u` to node `v`: the rows
/// form a square relation in which no node leads to itself.
pub open spec fn well_formed_graph(adj: Seq<Vec<bool>>) -> bool {
    &&& forall|u: int| 0 <= u < adj.len() ==> (#[trigger] adj[u]@).len() == adj.len()
    &&& forall|v: int| 0 <= v < adj.len() ==> !adj[v]@[v]
}

/// Number of `true` entries.
pub open spec fn count_true(s: Seq<bool>) -> nat
    decreases s.len(),
{
    if s.len() == 0 {
        0
    } else {
        count_true(s.drop_last()) + if s.last() {
            1nat
        } else {
            0nat
        }
    }
}

/// No more entries are `true` than there are entries.
pub proof fn lemma_count_true_bound(s: Seq<bool>)
    ensures
        count_true(s) <= s.len(),
    decreases s.len(),
{
    if s.len() > 0 {
        lemma_count_true_bound(s.drop_last());
    }
}

proof fn lemma_count_true_set(s: Seq<bool>, i: int)
    requires
        0 <= i < s.len(),
        !s[i],
    ensures
        count_true(s.update(i, true)) == count_true(s) + 1,
    decreases s.len(),
{
    if i == s.len() - 1 {
        assert(s.update(i, true).drop_last() =~= s.drop_last());
    } else {
        assert(s.update(i, true).drop_last() =~= s.drop_last().update(i, true));
        lemma_count_true_set(s.drop_last(), i);
    }
}

/// One more than the highest level `lv[u]` among the predecessors `u < k` of
/// `v` that `counted` admits, or zero when there is none.
pub open spec fn pred_level(
    adj: Seq<Vec<bool>>,
    lv: Seq<usize>,
    counted: Seq<bool>,
    v: int,
    k: int,
) -> int
    decreases k,
{
    if k <= 0 {
        0
    } else {
        let rest = pred_level(adj, lv, counted, v, k - 1);
        if counted[k - 1] && adj[k - 1]@[v] && rest < lv[k - 1] + 1 {
            lv[k - 1] + 1
        } else {
            rest
        }
    }
}

/// Admitting one more predecessor `w` raises the level to at least `lv[w] + 1`.
proof fn lemma_pred_level_admit(
    adj: Seq<Vec<bool>>,
    lv: Seq<usize>,
    counted: Seq<bool>,
    w: int,
    v: int,
    k: int,
)
    requires
        0 <= w < counted.len(),
        k <= counted.len(),
        !counted[w],
    ensures
        pred_level(adj, lv, counted.update(w, true), v, k) == if w < k && adj[w]@[v]
            && pred_level(adj, lv, counted, v, k) < lv[w] + 1 {
            lv[w] + 1
        } else {
            pred_level(adj, lv, counted, v, k)
        },
    decreases k,
{
    if k > 0 {
        lemma_pred_level_admit(adj, lv, counted, w, v, k - 1);
    }
}

/// The level depends only on the levels of admitted nodes.
proof fn lemma_pred_level_frame(
    adj: Seq<Vec<bool>>,
    lv1: Seq<usize>,
    lv2: Seq<usize>,
    counted: Seq<bool>,
    v: int,
    k: int,
)
    requires
        forall|u: int| 0 <= u < k && #[trigger] counted[u] ==> lv1[u] == lv2[u],
    ensures
        pred_level(adj, lv1, counted, v, k) == pred_level(adj, lv2, counted, v, k),
    decreases k,
{
    if k > 0 {
        lemma_pred_level_frame(adj, lv1, lv2, counted, v, k - 1);
    }
}

/// Every admitted predecessor lies at least one level higher up.
pub proof fn lemma_pred_level_above(
    adj: Seq<Vec<bool>>,
    lv: Seq<usize>,
    counted: Seq<bool>,
    u: int,
    v: int,
    k: int,
)
    requires
        0 <= u < k,
        counted[u],
        adj[u]@[v],
    ensures
        pred_level(adj, lv, counted, v, k) >= lv[u] + 1,
    decreases k,
{
    if u < k - 1 {
        lemma_pred_level_above(adj, lv, counted, u, v, k - 1);
    }
}

/// Without admitted predecessors the level is zero.
pub proof fn lemma_pred_level_zero(
    adj: Seq<Vec<bool>>,
    lv: Seq<usize>,
    counted: Seq<bool>,
    v: int,
    k: int,
)
    requires
        forall|u: int| 0 <= u < k && #[trigger] counted[u] ==> !adj[u]@[v],
    ensures
        pred_level(adj, lv, counted, v, k) == 0,
    decreases k,
{
    if k > 0 {
        lemma_pred_level_zero(adj, lv, counted, v, k - 1);
    }
}

/// Node `v` is not placed yet while all its predecessors are.
pub open spec fn ready(adj: Seq<Vec<bool>>, placed: Seq<bool>, v: int) -> bool {
    &&& !placed[v]
    &&& forall|u: int| 0 <= u < adj.len() && #[trigger] adj[u]@[v] ==> placed[u]
}

/// The first node, in caller order, that is ready to be placed.
fn first_ready(adj: &Vec<Vec<bool>>, placed: &Vec<bool>) -> (r: Option<usize>)
    requires
        well_formed_graph(adj@),
        placed@.len() == adj@.len(),
    ensures
        match r {
            Some(v) => v < adj@.len() && ready(adj@, placed@, v as int) && forall|w: int|
                0 <= w < v ==> !ready(adj@, placed@, w),
            None => forall|w: int| 0 <= w < adj@.len() ==> !ready(adj@, placed@, w),
        },
{
    let n: usize = adj.len();
    let mut v: usize = 0;
    while v < n
        invariant
            n == adj@.len() == placed@.len(),
            well_formed_graph(adj@),
            v <= n,
            forall|w: int| 0 <= w < v ==> !ready(adj@, placed@, w),
        decreases n - v,
    {
        if !placed[v] {
            let mut u: usize = 0;
            let mut all_placed = true;
            while u < n
                invariant
                    n == adj@.len() == placed@.len(),
                    well_formed_graph(adj@),
                    v < n,
                    u <= n,
                    all_placed == forall|x: int| 0 <= x < u && #[trigger] adj@[x]@[v as int] ==> placed@[x],
                decreases n - u,
            {
                assert(adj@[u as int]@.len() == n);
                if adj[u][v] && !placed[u] {
                    all_placed = false;
                }
                u = u + 1;
            }
            if all_placed {
                return Some(v);
            }
        }
        v = v + 1;
    }
    None
}

proof fn lemma_count_true_none(s: Seq<bool>)
    requires
        forall|i: int| 0 <= i < s.len() ==> !s[i],
    ensures
        count_true(s) == 0,
    decreases s.len(),
{
    if s.len() > 0 {
        lemma_count_true_none(s.drop_last());
    }
}

/// State of Kahn layering: `placed` nodes have final levels, every level is
/// one past the deepest placed predecessor, and `done` nodes are placed.
pub open spec fn kahn_state(adj: Seq<Vec<bool>>, lv: Seq<usize>, placed: Seq<bool>, done: int) -> bool {
    let n: nat = adj.len();
    &&& lv.len() == n
    &&& placed.len() == n
    &&& done == count_true(placed)
    &&& forall|t: int| 0 <= t < n ==> #[trigger] lv[t] == pred_level(adj, lv, placed, t, n as int)
    &&& forall|t: int, u: int|
        0 <= t < n && 0 <= u < n && placed[t] && #[trigger] adj[u]@[t] ==> placed[u]
    &&& forall|t: int| 0 <= t < n ==> (if placed[t] { #[trigger] lv[t] < done } else { lv[t] <= done })
}

/// Place the ready node `v` and raise each of its successors below it.
fn admit_node(adj: &Vec<Vec<bool>>, lv: &mut Vec<usize>, placed: &mut Vec<bool>, done: usize, v: usize)
    requires
        well_formed_graph(adj@),
        kahn_state(adj@, old(lv)@, old(placed)@, done as int),
        v < adj@.len(),
        ready(adj@, old(placed)@, v as int),
    ensures
        kahn_state(adj@, final(lv)@, final(placed)@, done + 1),
        final(placed)@ == old(placed)@.update(v as int, true),
        done + 1 <= adj@.len(),
{
    let n: usize = adj.len();
    let ghost lv0 = lv@;
    let ghost placed0 = placed@;
    proof {
        lemma_count_true_set(placed0, v as int);
        lemma_count_true_bound(placed0.update(v as int, true));
        assert(lv0[v as int] <= done);
    }
    placed.set(v, true);
    let base: usize = lv[v] + 1;
    let mut j: usize = 0;
    while j < n
        invariant
            n == adj@.len(),
            lv@.len() == n,
            j <= n,
            well_formed_graph(adj@),
            v < n,
            base == lv0[v as int] + 1,
            lv0.len() == n,
            forall|t: int|
                0 <= t < j ==> #[trigger] lv@[t] == (if adj@[v as int]@[t] && lv0[t] < base {
                    base as usize
                } else {
                    lv0[t]
                }),
            forall|t: int| j <= t < n ==> #[trigger] lv@[t] == lv0[t],
        decreases n - j,
    {
        assert(adj@[v as int]@.len() == n);
        if adj[v][j] && lv[j] < base {
            lv.set(j, base);
        }
        j = j + 1;
    }
    let ghost placed1 = placed@;
    proof {
        assert(placed1 == placed0.update(v as int, true));
        assert forall|u: int| 0 <= u < n && #[trigger] placed1[u] implies lv0[u] == lv@[u] by {
            if adj@[v as int]@[u] {
                if u != v {
                    assert(placed0[u]);
                    assert(placed0[v as int]);
                }
            }
        }
        assert forall|t: int| 0 <= t < n implies #[trigger] lv@[t] == pred_level(
            adj@,
            lv@,
            placed1,
            t,
            n as int,
        ) by {
            lemma_pred_level_admit(adj@, lv0, placed0, v as int, t, n as int);
            lemma_pred_level_frame(adj@, lv0, lv@, placed1, t, n as int);
        }
        assert forall|t: int, u: int|
            0 <= t < n && 0 <= u < n && placed1[t] && #[trigger] adj@[u]@[t] implies placed1[u] by {
            if t != v {
                assert(placed0[t]);
            }
        }
        assert forall|t: int| 0 <= t < n implies (if placed1[t] {
            #[trigger] lv@[t] < done + 1
        } else {
            lv@[t] <= done + 1
        }) by {
            if placed1[t] && t != v && adj@[v as int]@[t] {
                assert(placed0[v as int]);
            }
        }
    }
}

/// Kahn layering: place ready nodes, first in caller order first, until none is ready.
fn kahn_layering(adj: &Vec<Vec<bool>>) -> (r: (Vec<usize>, Vec<bool>, usize))
    requires
        well_formed_graph(adj@),
    ensures
        kahn_state(adj@, r.0@, r.1@, r.2 as int),
        forall|t: int| 0 <= t < adj@.len() ==> !ready(adj@, r.1@, t),
{
    let n: usize = adj.len();
    let mut lv: Vec<usize> = Vec::new();
    let mut placed: Vec<bool> = Vec::new();
    let mut i: usize = 0;
    while i < n
        invariant
            i <= n,
            lv@.len() == i,
            placed@.len() == i,
            forall|t: int| 0 <= t < i ==> lv@[t] == 0 && !placed@[t],
        decreases n - i,
    {
        lv.push(0);
        placed.push(false);
        i = i + 1;
    }
    proof {
        lemma_count_true_none(placed@);
        assert forall|t: int| 0 <= t < n implies #[trigger] lv@[t] == pred_level(
            adj@,
            lv@,
            placed@,
            t,
            n as int,
        ) by {
            lemma_pred_level_zero(adj@, lv@, placed@, t, n as int);
        }
    }
    let mut done: usize = 0;
    loop
        invariant
            n == adj@.len(),
            well_formed_graph(adj@),
            kahn_state(adj@, lv@, placed@, done as int),
        ensures
            kahn_state(adj@, lv@, placed@, done as int),
            forall|t: int| 0 <= t < adj@.len() ==> !ready(adj@, placed@, t),
        decreases n - done,
    {
        proof {
            lemma_count_true_bound(placed@);
        }
        match first_ready(adj, &placed) {
            None => {
                break ;
            },
            Some(v) => {
                admit_node(adj, &mut lv, &mut placed, done, v);
                done = done + 1;
            },
        }
    }
    (lv, placed, done)
}

/// Scanning the successors `j..` of `src` in caller order: each one not
/// placed yet is placed on level `base` and queued.
pub open spec fn span_scan(
    adj: Seq<Vec<bool>>,
    src: int,
    base: usize,
    j: int,
    lv: Seq<usize>,
    placed: Seq<bool>,
    queue: Seq<usize>,
) -> (Seq<usize>, Seq<bool>, Seq<usize>)
    decreases adj.len() - j,
{
    if j >= adj.len() {
        (lv, placed, queue)
    } else if adj[src]@[j] && !placed[j] {
        span_scan(adj, src, base, j + 1, lv.update(j, base), placed.update(j, true), queue.push(j as usize))
    } else {
        span_scan(adj, src, base, j + 1, lv, placed, queue)
    }
}

/// A scan places as many nodes as it queues, and keeps what was queued.
pub proof fn lemma_scan_counts(
    adj: Seq<Vec<bool>>,
    src: int,
    base: usize,
    j: int,
    lv: Seq<usize>,
    placed: Seq<bool>,
    queue: Seq<usize>,
)
    requires
        placed.len() == adj.len(),
        0 <= j,
    ensures
        ({
            let r = span_scan(adj, src, base, j, lv, placed, queue);
            &&& r.1.len() == placed.len()
            &&& count_true(placed) <= count_true(r.1)
            &&& r.2.len() - queue.len() == count_true(r.1) - count_true(placed)
            &&& r.2.take(queue.len() as int) == queue
        }),
    decreases adj.len() - j,
{
    if j < adj.len() {
        if adj[src]@[j] && !placed[j] {
            lemma_count_true_set(placed, j);
            lemma_scan_counts(adj, src, base, j + 1, lv.update(j, base), placed.update(j, true), queue.push(j as usize));
            let r = span_scan(adj, src, base, j, lv, placed, queue);
            assert(r.2.take(queue.len() as int) =~= r.2.take((queue.len() + 1) as int).take(queue.len() as int));
            assert(queue.push(j as usize).take(queue.len() as int) =~= queue);
        } else {
            lemma_scan_counts(adj, src, base, j + 1, lv, placed, queue);
        }
    } else {
        assert(queue.take(queue.len() as int) =~= queue);
    }
}

/// Breadth-first completion from the queue position `head` on: each queued
/// node in turn places its unplaced successors one level below itself.
pub open spec fn span_drain(
    adj: Seq<Vec<bool>>,
    lv: Seq<usize>,
    placed: Seq<bool>,
    queue: Seq<usize>,
    head: int,
) -> (Seq<usize>, Seq<bool>)
    decreases 2 * (adj.len() - count_true(placed)) + (queue.len() - head),
{
    if placed.len() != adj.len() || head < 0 || head >= queue.len() {
        (lv, placed)
    } else {
        let src = queue[head] as int;
        let r = span_scan(adj, src, (lv[src] + 1) as usize, 0, lv, placed, queue);
        proof {
            lemma_scan_counts(adj, src, (lv[src] + 1) as usize, 0, lv, placed, queue);
            lemma_count_true_bound(r.1);
        }
        span_drain(adj, r.0, r.1, r.2, head + 1)
    }
}

/// The spanning completion from node `start` on: each node not placed yet,
/// in caller order, is placed where it stands and starts a breadth-first
/// completion.
pub open spec fn span_all(adj: Seq<Vec<bool>>, start: int, lv: Seq<usize>, placed: Seq<bool>) -> (
    Seq<usize>,
    Seq<bool>,
)
    decreases adj.len() - start,
{
    if start < 0 || start >= adj.len() {
        (lv, placed)
    } else if placed[start] {
        span_all(adj, start + 1, lv, placed)
    } else {
        let r = span_drain(adj, lv, placed.update(start, true), seq![start as usize], 0);
        span_all(adj, start + 1, r.0, r.1)
    }
}

/// The levels Kahn layering leaves: a layered node keeps its level, any other
/// node lies one level below its deepest layered predecessor.
pub open spec fn kahn_levels(adj: Seq<Vec<bool>>, levels: Seq<usize>, layered: Seq<bool>) -> Seq<usize> {
    Seq::new(
        adj.len(),
        |v: int|
            if layered[v] {
                levels[v]
            } else {
                pred_level(adj, levels, layered, v, adj.len() as int) as usize
            },
    )
}

/// `u` is a cyclic predecessor of `v` one level above it.
pub open spec fn spans_to(adj: Seq<Vec<bool>>, levels: Seq<usize>, layered: Seq<bool>, u: int, v: int) -> bool {
    &&& 0 <= u < adj.len()
    &&& adj[u]@[v]
    &&& !layered[u]
    &&& levels[v] == levels[u] + 1
}

/// State of the spanning completion that follows Kahn layering, whose levels
/// are `lvk` and whose placed nodes are `layered`.
pub open spec fn spanning_state(
    adj: Seq<Vec<bool>>,
    lvk: Seq<usize>,
    layered: Seq<bool>,
    lv: Seq<usize>,
    placed: Seq<bool>,
    done: int,
) -> bool {
    let n: nat = adj.len();
    &&& lv.len() == n
    &&& placed.len() == n
    &&& layered.len() == n
    &&& lvk.len() == n
    &&& done == count_true(placed)
    &&& forall|t: int| 0 <= t < n && #[trigger] layered[t] ==> placed[t] && lv[t] == lvk[t]
    &&& forall|t: int| 0 <= t < n && !#[trigger] placed[t] ==> lv[t] == lvk[t]
    &&& forall|t: int| 0 <= t < n ==> (if placed[t] { #[trigger] lv[t] < done } else { lv[t] <= done })
    &&& forall|t: int|
        0 <= t < n && #[trigger] placed[t] && !layered[t] ==> lv[t] == lvk[t] || exists|u: int|
            #[trigger] spans_to(adj, lv, layered, u, t) && placed[u]
}

/// Place the unplaced successors of `src`, in caller order, one level below it.
fn span_successors(
    adj: &Vec<Vec<bool>>,
    Ghost(lvk): Ghost<Seq<usize>>,
    layered: &Vec<bool>,
    lv: &mut Vec<usize>,
    placed: &mut Vec<bool>,
    done: &mut usize,
    pending: &mut Vec<usize>,
    src: usize,
)
    requires
        well_formed_graph(adj@),
        spanning_state(adj@, lvk, layered@, old(lv)@, old(placed)@, *old(done) as int),
        src < adj@.len(),
        old(placed)@[src as int],
        !layered@[src as int],
        forall|k: int|
            0 <= k < old(pending)@.len() ==> #[trigger] old(pending)@[k] < adj@.len()
                && old(placed)@[old(pending)@[k] as int] && !layered@[old(pending)@[k] as int],
    ensures
        spanning_state(adj@, lvk, layered@, final(lv)@, final(placed)@, *final(done) as int),
        forall|t: int| 0 <= t < adj@.len() && old(placed)@[t] ==> #[trigger] final(placed)@[t],
        forall|k: int|
            0 <= k < final(pending)@.len() ==> #[trigger] final(pending)@[k] < adj@.len()
                && final(placed)@[final(pending)@[k] as int] && !layered@[final(pending)@[k] as int],
        final(pending)@.len() - old(pending)@.len() == *final(done) - *old(done),
        *old(done) <= *final(done),
        (final(lv)@, final(placed)@, final(pending)@) == span_scan(
            adj@,
            src as int,
            (old(lv)@[src as int] + 1) as usize,
            0,
            old(lv)@,
            old(placed)@,
            old(pending)@,
        ),
{
    let n: usize = adj.len();
    proof {
        lemma_count_true_bound(placed@);
    }
    let base: usize = lv[src] + 1;
    let ghost lv0 = lv@;
    let ghost placed0 = placed@;
    let ghost done0 = *done;
    let ghost pending0 = pending@;
    let mut j: usize = 0;
    while j < n
        invariant
            n == adj@.len(),
            well_formed_graph(adj@),
            j <= n,
            src < n,
            placed@[src as int],
            !layered@[src as int],
            base == lv@[src as int] + 1,
            base == lv0[src as int] + 1,
            span_scan(adj@, src as int, base, j as int, lv@, placed@, pending@) == span_scan(
                adj@,
                src as int,
                base,
                0,
                lv0,
                placed0,
                pending0,
            ),
            spanning_state(adj@, lvk, layered@, lv@, placed@, *done as int),
            forall|t: int| 0 <= t < n && placed0[t] ==> #[trigger] placed@[t],
            forall|k: int|
                0 <= k < pending@.len() ==> #[trigger] pending@[k] < n && placed@[pending@[k] as int]
                    && !layered@[pending@[k] as int],
            pending@.len() - pending0.len() == *done - done0,
            done0 <= *done,
        decreases n - j,
    {
        assert(adj@[src as int]@.len() == n);
        if adj[src][j] && !placed[j] {
            let ghost lv1 = lv@;
            let ghost placed1 = placed@;
            proof {
                lemma_count_true_set(placed1, j as int);
                lemma_count_true_bound(placed1.update(j as int, true));
            }
            placed.set(j, true);
            lv.set(j, base);
            *done = *done + 1;
            pending.push(j);
            proof {
                assert(spans_to(adj@, lv@, layered@, src as int, j as int));
                assert forall|t: int|
                    0 <= t < n && #[trigger] placed@[t] && !layered@[t] implies lv@[t] == lvk[t]
                    || exists|u: int| #[trigger] spans_to(adj@, lv@, layered@, u, t) && placed@[u] by {
                    if t != j && lv@[t] != lvk[t] {
                        assert(placed1[t]);
                        let u = choose|u: int| #[trigger] spans_to(adj@, lv1, layered@, u, t) && placed1[u];
                        assert(spans_to(adj@, lv@, layered@, u, t) && placed@[u]);
                    }
                }
            }
        }
        j = j + 1;
    }
}

/// Place `start`, if it is not placed yet, and then everything it reaches
/// through unplaced nodes, breadth first.
fn span_from(
    adj: &Vec<Vec<bool>>,
    Ghost(lvk): Ghost<Seq<usize>>,
    layered: &Vec<bool>,
    lv: &mut Vec<usize>,
    placed: &mut Vec<bool>,
    done: &mut usize,
    start: usize,
)
    requires
        well_formed_graph(adj@),
        spanning_state(adj@, lvk, layered@, old(lv)@, old(placed)@, *old(done) as int),
        start < adj@.len(),
    ensures
        spanning_state(adj@, lvk, layered@, final(lv)@, final(placed)@, *final(done) as int),
        forall|t: int| 0 <= t < adj@.len() && old(placed)@[t] ==> #[trigger] final(placed)@[t],
        final(placed)@[start as int],
        (final(lv)@, final(placed)@) == if old(placed)@[start as int] {
            (old(lv)@, old(placed)@)
        } else {
            span_drain(adj@, old(lv)@, old(placed)@.update(start as int, true), seq![start], 0)
        },
{
    if placed[start] {
        return ;
    }
    let n: usize = adj.len();
    let ghost lv0 = lv@;
    let ghost placed0 = placed@;
    proof {
        lemma_count_true_set(placed0, start as int);
        lemma_count_true_bound(placed0.update(start as int, true));
    }
    placed.set(start, true);
    *done = *done + 1;
    let mut pending: Vec<usize> = Vec::new();
    pending.push(start);
    assert(pending@ =~= seq![start]);
    let mut head: usize = 0;
    while head < pending.len()
        invariant
            n == adj@.len(),
            well_formed_graph(adj@),
            start < n,
            placed@[start as int],
            spanning_state(adj@, lvk, layered@, lv@, placed@, *done as int),
            forall|t: int| 0 <= t < n && placed0[t] ==> #[trigger] placed@[t],
            forall|k: int|
                0 <= k < pending@.len() ==> #[trigger] pending@[k] < n && placed@[pending@[k] as int]
                    && !layered@[pending@[k] as int],
            head <= pending@.len(),
            *done <= n,
            placed@.len() == n,
            span_drain(adj@, lv@, placed@, pending@, head as int) == span_drain(
                adj@,
                lv0,
                placed0.update(start as int, true),
                seq![start],
                0,
            ),
        decreases (n - *done) + (pending@.len() - head),
    {
        let src = pending[head];
        head = head + 1;
        span_successors(adj, Ghost(lvk), layered, lv, placed, done, &mut pending, src);
        proof {
            lemma_count_true_bound(placed@);
        }
    }
}

/// Levels of the nodes of a graph, with the nodes that Kahn layering placed.
pub struct Layering {
    pub levels: Vec<usize>,
    pub layered: Vec<bool>,
}

/// What the layering of `adj` is: every level lies below the node count; a
/// node is layered exactly when all its predecessors are; a layered node lies
/// one level below its deepest predecessor (level zero without one); the
/// other nodes get the levels the spanning completion gives them, starting
/// from the levels Kahn layering leaves, so that each keeps its level or lies
/// one level below a cyclic predecessor.
pub open spec fn layering_of(adj: Seq<Vec<bool>>, levels: Seq<usize>, layered: Seq<bool>) -> bool {
    let n: nat = adj.len();
    &&& levels == span_all(adj, 0, kahn_levels(adj, levels, layered), layered).0
    &&& levels.len() == n
    &&& layered.len() == n
    &&& forall|v: int| 0 <= v < n ==> #[trigger] levels[v] < n
    &&& forall|v: int|
        0 <= v < n ==> (#[trigger] layered[v] <==> forall|u: int|
            0 <= u < n && #[trigger] adj[u]@[v] ==> layered[u])
    &&& forall|v: int|
        0 <= v < n && #[trigger] layered[v] ==> levels[v] == pred_level(adj, levels, layered, v, n as int)
    &&& forall|v: int|
        0 <= v < n && !#[trigger] layered[v] ==> levels[v] == pred_level(adj, levels, layered, v, n as int)
            || exists|u: int| #[trigger] spans_to(adj, levels, layered, u, v)
}

/// The Kahn levels can be read back from the final levels: layered nodes
/// keep theirs, and the others' depend on layered levels alone.
proof fn lemma_kahn_levels_recovered(
    adj: Seq<Vec<bool>>,
    lvk: Seq<usize>,
    layered: Seq<bool>,
    lv: Seq<usize>,
    done: int,
)
    requires
        kahn_state(adj, lvk, layered, done),
        lv.len() == adj.len(),
        forall|t: int| 0 <= t < adj.len() && #[trigger] layered[t] ==> lv[t] == lvk[t],
    ensures
        kahn_levels(adj, lv, layered) == lvk,
{
    let n = adj.len() as int;
    assert forall|v: int| 0 <= v < n implies #[trigger] kahn_levels(adj, lv, layered)[v] == lvk[v] by {
        if !layered[v] {
            lemma_pred_level_frame(adj, lv, lvk, layered, v, n);
        }
    }
    assert(kahn_levels(adj, lv, layered) =~= lvk);
}

/// Once Kahn layering and the spanning completion have placed every node,
/// the levels form the layering of the graph.
proof fn lemma_layering_complete(
    adj: Seq<Vec<bool>>,
    lvk: Seq<usize>,
    layered: Seq<bool>,
    kahn_done: int,
    lv: Seq<usize>,
    placed: Seq<bool>,
    done: int,
)
    requires
        well_formed_graph(adj),
        kahn_state(adj, lvk, layered, kahn_done),
        forall|t: int| 0 <= t < adj.len() ==> !ready(adj, layered, t),
        spanning_state(adj, lvk, layered, lv, placed, done),
        forall|t: int| 0 <= t < adj.len() ==> #[trigger] placed[t],
        lv == span_all(adj, 0, lvk, layered).0,
    ensures
        layering_of(adj, lv, layered),
{
    let n = adj.len();
    lemma_count_true_bound(placed);
    assert forall|v: int| 0 <= v < n implies pred_level(adj, lv, layered, v, n as int)
        == pred_level(adj, lvk, layered, v, n as int) by {
        lemma_pred_level_frame(adj, lv, lvk, layered, v, n as int);
    }
    assert forall|v: int| 0 <= v < n implies (#[trigger] layered[v] <==> forall|u: int|
        0 <= u < n && #[trigger] adj[u]@[v] ==> layered[u]) by {
        if !layered[v] {
            assert(!ready(adj, layered, v));
        }
    }
    assert forall|v: int| 0 <= v < n && !#[trigger] layered[v] implies lv[v] == pred_level(
        adj,
        lv,
        layered,
        v,
        n as int,
    ) || exists|u: int| #[trigger] spans_to(adj, lv, layered, u, v) by {
        assert(placed[v]);
    }
    lemma_kahn_levels_recovered(adj, lvk, layered, lv, kahn_done);
}

/// Layer the graph `adj`: Kahn layering in caller order, then a breadth-first
/// spanning hierarchy over the nodes left on cycles.
pub fn layer_levels(adj: &Vec<Vec<bool>>) -> (r: Layering)
    requires
        well_formed_graph(adj@),
    ensures
        layering_of(adj@, r.levels@, r.layered@),
{
    let n: usize = adj.len();
    let (kahn_lv, layered, kahn_done) = kahn_layering(adj);
    let ghost lvk = kahn_lv@;
    let mut lv = kahn_lv;
    let mut placed = layered.clone();
    let mut done = kahn_done;
    proof {
        assert(placed@ =~= layered@);
    }
    let mut start: usize = 0;
    while start < n
        invariant
            n == adj@.len(),
            well_formed_graph(adj@),
            kahn_state(adj@, lvk, layered@, kahn_done as int),
            forall|t: int| 0 <= t < n ==> !ready(adj@, layered@, t),
            spanning_state(adj@, lvk, layered@, lv@, placed@, done as int),
            start <= n,
            forall|t: int| 0 <= t < start ==> #[trigger] placed@[t],
            span_all(adj@, start as int, lv@, placed@) == span_all(adj@, 0, lvk, layered@),
        decreases n - start,
    {
        let ghost lv1 = lv@;
        let ghost placed1 = placed@;
        span_from(adj, Ghost(lvk), &layered, &mut lv, &mut placed, &mut done, start);
        assert(span_all(adj@, start as int, lv1, placed1) == span_all(adj@, start + 1, lv@, placed@));
        start = start + 1;
    }
    assert(span_all(adj@, n as int, lv@, placed@) == (lv@, placed@));
    proof {
        lemma_layering_complete(adj@, lvk, layered@, kahn_done as int, lv@, placed@, done as int);
    }
    Layering { levels: lv, layered }
}

/// Along every edge into a layered node the level grows: its source is
/// layered too and lies on a higher level.
pub proof fn lemma_layered_edges_descend(
    adj: Seq<Vec<bool>>,
    levels: Seq<usize>,
    layered: Seq<bool>,
    u: int,
    v: int,
)
    requires
        layering_of(adj, levels, layered),
        0 <= u < adj.len(),
        0 <= v < adj.len(),
        adj[u]@[v],
        layered[v],
    ensures
        layered[u],
        levels[u] < levels[v],
{
    assert(layered[u]);
    lemma_pred_level_above(adj, levels, layered, u, v, adj.len() as int);
}

/// A node without predecessors is layered on the top level.
pub proof fn lemma_sources_on_top(adj: Seq<Vec<bool>>, levels: Seq<usize>, layered: Seq<bool>, v: int)
    requires
        layering_of(adj, levels, layered),
        0 <= v < adj.len(),
        forall|u: int| 0 <= u < adj.len() ==> !#[trigger] adj[u]@[v],
    ensures
        layered[v],
        levels[v] == 0,
{
    assert(layered[v]);
    lemma_pred_level_zero(adj, levels, layered, v, adj.len() as int);
}

/// The nodes below `k` on level `level`, in caller order.
pub open spec fn nodes_on_level(levels: Seq<usize>, level: int, k: int) -> Seq<usize>
    decreases k,
{
    if k <= 0 {
        Seq::empty()
    } else if levels[k - 1] == level {
        nodes_on_level(levels, level, k - 1).push((k - 1) as usize)
    } else {
        nodes_on_level(levels, level, k - 1)
    }
}

proof fn lemma_nodes_on_level_nonempty(levels: Seq<usize>, v: int, k: int)
    requires
        0 <= v < k,
    ensures
        nodes_on_level(levels, levels[v] as int, k).len() > 0,
    decreases k,
{
    if v < k - 1 {
        lemma_nodes_on_level_nonempty(levels, v, k - 1);
    }
}

/// The nodes of one level, in caller order.
pub struct LevelRow {
    pub level: usize,
    pub members: Vec<usize>,
}

/// `rows` lists the occupied levels from the top down, each with its nodes in
/// caller order.
pub open spec fn rows_of(levels: Seq<usize>, rows: Seq<LevelRow>) -> bool {
    &&& forall|a: int, b: int| 0 <= a < b < rows.len() ==> rows[a].level < rows[b].level
    &&& forall|a: int|
        0 <= a < rows.len() ==> (#[trigger] rows[a]).members@ == nodes_on_level(
            levels,
            rows[a].level as int,
            levels.len() as int,
        ) && rows[a].members@.len() > 0
    &&& forall|v: int|
        #![trigger levels[v]]
        0 <= v < levels.len() ==> exists|a: int| 0 <= a < rows.len() && #[trigger] rows[a].level == levels[v]
}

/// Group the nodes by level, top level first, keeping caller order within a level.
pub fn level_rows(levels: &Vec<usize>) -> (rows: Vec<LevelRow>)
    requires
        forall|v: int| 0 <= v < levels@.len() ==> #[trigger] levels@[v] < levels@.len(),
    ensures
        rows_of(levels@, rows@),
{
    let n: usize = levels.len();
    let mut rows: Vec<LevelRow> = Vec::new();
    let mut level: usize = 0;
    while level < n
        invariant
            n == levels@.len(),
            level <= n,
            forall|v: int| 0 <= v < n ==> #[trigger] levels@[v] < n,
            forall|a: int| 0 <= a < rows@.len() ==> #[trigger] rows@[a].level < level,
            forall|a: int, b: int| 0 <= a < b < rows@.len() ==> rows@[a].level < rows@[b].level,
            forall|a: int|
                0 <= a < rows@.len() ==> (#[trigger] rows@[a]).members@ == nodes_on_level(
                    levels@,
                    rows@[a].level as int,
                    n as int,
                ) && rows@[a].members@.len() > 0,
            forall|v: int|
                #![trigger levels@[v]]
                0 <= v < n && levels@[v] < level ==> exists|a: int|
                    0 <= a < rows@.len() && #[trigger] rows@[a].level == levels@[v],
        decreases n - level,
    {
        let mut members: Vec<usize> = Vec::new();
        let mut j: usize = 0;
        while j < n
            invariant
                n == levels@.len(),
                j <= n,
                members@ == nodes_on_level(levels@, level as int, j as int),
            decreases n - j,
        {
            if levels[j] == level {
                members.push(j);
            }
            j = j + 1;
        }
        if members.len() > 0 {
            let ghost old_rows = rows@;
            rows.push(LevelRow { level, members });
            proof {
                assert forall|v: int| 0 <= v < n && levels@[v] < level + 1 implies exists|a: int|
                    0 <= a < rows@.len() && #[trigger] rows@[a].level == levels@[v] by {
                    if levels@[v] < level {
                        let a = choose|a: int| 0 <= a < old_rows.len() && #[trigger] old_rows[a].level == levels@[v];
                        assert(rows@[a] == old_rows[a]);
                    } else {
                        assert(rows@[old_rows.len() as int].level == levels@[v]);
                    }
                }
            }
        } else {
            proof {
                assert forall|v: int| 0 <= v < n && levels@[v] < level + 1 implies exists|a: int|
                    0 <= a < rows@.len() && #[trigger] rows@[a].level == levels@[v] by {
                    if levels@[v] == level {
                        lemma_nodes_on_level_nonempty(levels@, v, n as int);
                    }
                }
            }
        }
        level = level + 1;
    }
    rows
}

/// No earlier identifier equals the one at `i`.
pub open spec fn first_seen(ids: Seq<String>, i: int) -> bool {
    forall|j: int| 0 <= j < i ==> ids[j]@ != ids[i]@
}

/// Positions of the first occurrence of each distinct identifier, in caller order.
pub fn first_occurrences(ids: &Vec<String>) -> (r: Vec<usize>)
    ensures
        forall|a: int, b: int| 0 <= a < b < r@.len() ==> r@[a] < r@[b],
        forall|a: int| 0 <= a < r@.len() ==> #[trigger] r@[a] < ids@.len() && first_seen(ids@, r@[a] as int),
        forall|i: int| 0 <= i < ids@.len() && first_seen(ids@, i) ==> exists|a: int| 0 <= a < r@.len() && #[trigger] r@[a] == i,
{
    let n: usize = ids.len();
    let mut r: Vec<usize> = Vec::new();
    let mut i: usize = 0;
    while i < n
        invariant
            n == ids@.len(),
            i <= n,
            forall|a: int| 0 <= a < r@.len() ==> #[trigger] r@[a] < i,
            forall|a: int, b: int| 0 <= a < b < r@.len() ==> r@[a] < r@[b],
            forall|a: int| 0 <= a < r@.len() ==> #[trigger] r@[a] < ids@.len() && first_seen(ids@, r@[a] as int),
            forall|x: int| 0 <= x < i && first_seen(ids@, x) ==> exists|a: int| 0 <= a < r@.len() && #[trigger] r@[a] == x,
        decreases n - i,
    {
        let mut j: usize = 0;
        let mut fresh = true;
        while j < i
            invariant
                n == ids@.len(),
                j <= i < n,
                fresh == forall|y: int| 0 <= y < j ==> ids@[y]@ != ids@[i as int]@,
            decreases i - j,
        {
            if ids[j] == ids[i] {
                fresh = false;
            }
            j = j + 1;
        }
        if fresh {
            let ghost old_r = r@;
            r.push(i);
            proof {
                assert forall|x: int| 0 <= x < i + 1 && first_seen(ids@, x) implies exists|a: int|
                    0 <= a < r@.len() && #[trigger] r@[a] == x by {
                    if x < i {
                        let a = choose|a: int| 0 <= a < old_r.len() && #[trigger] old_r[a] == x;
                        assert(r@[a] == old_r[a]);
                    } else {
                        assert(r@[old_r.len() as int] == x);
                    }
                }
            }
        }
        i = i + 1;
    }
    r
}

/// `r` is the position of the last occurrence of the identifier at `i`.
pub open spec fn last_seen(ids: Seq<String>, i: int, r: int) -> bool {
    &&& i <= r < ids.len()
    &&& ids[r]@ == ids[i]@
    &&& forall|k: int| r < k < ids.len() ==> (#[trigger] ids[k])@ != ids[i]@
}

/// Position of the last occurrence of the identifier at `i`.
pub fn last_occurrence(ids: &Vec<String>, i: usize) -> (r: usize)
    requires
        i < ids@.len(),
    ensures
        last_seen(ids@, i as int, r as int),
{
    let n: usize = ids.len();
    let mut r: usize = i;
    let mut k: usize = i + 1;
    while k < n
        invariant
            n == ids@.len(),
            i <= r < k <= ids@.len(),
            ids@[r as int]@ == ids@[i as int]@,
            forall|x: int| r < x < k ==> ids@[x]@ != ids@[i as int]@,
        decreases ids@.len() - k,
    {
        if ids[k] == ids[i] {
            r = k;
        }
        k = k + 1;
    }
    r
}

/// Some edge leads from the identifier `from` to the identifier `to`, and they differ.
pub open spec fn linked(edges: Seq<(String, String)>, from: Seq<char>, to: Seq<char>) -> bool {
    &&& from != to
    &&& exists|k: int| 0 <= k < edges.len() && #[trigger] edges[k].0@ == from && edges[k].1@ == to
}

/// The relation between the nodes `ids` that the edges give, leaving out
/// edges from a node to itself and edges with an unknown end.
pub fn edge_matrix(ids: &Vec<String>, edges: &Vec<(String, String)>) -> (adj: Vec<Vec<bool>>)
    ensures
        adj@.len() == ids@.len(),
        forall|u: int| 0 <= u < ids@.len() ==> (#[trigger] adj@[u]@).len() == ids@.len(),
        forall|u: int, v: int|
            0 <= u < ids@.len() && 0 <= v < ids@.len() ==> #[trigger] adj@[u]@[v] == linked(
                edges@,
                ids@[u]@,
                ids@[v]@,
            ),
{
    let n: usize = ids.len();
    let mut adj: Vec<Vec<bool>> = Vec::new();
    let mut u: usize = 0;
    while u < n
        invariant
            n == ids@.len(),
            u <= n,
            adj@.len() == u,
            forall|x: int| 0 <= x < u ==> (#[trigger] adj@[x]@).len() == n,
            forall|x: int, y: int|
                0 <= x < u && 0 <= y < n ==> #[trigger] adj@[x]@[y] == linked(edges@, ids@[x]@, ids@[y]@),
        decreases n - u,
    {
        let mut row: Vec<bool> = Vec::new();
        let mut v: usize = 0;
        while v < n
            invariant
                n == ids@.len(),
                u < n,
                v <= n,
                row@.len() == v,
                forall|y: int| 0 <= y < v ==> #[trigger] row@[y] == linked(edges@, ids@[u as int]@, ids@[y]@),
            decreases n - v,
        {
            let mut found = false;
            if ids[u] != ids[v] {
                let mut k: usize = 0;
                while k < edges.len()
                    invariant
                        n == ids@.len(),
                        u < n,
                        v < n,
                        k <= edges@.len(),
                        found == exists|x: int| 0 <= x < k && #[trigger] edges@[x].0@ == ids@[u as int]@
                            && edges@[x].1@ == ids@[v as int]@,
                    decreases edges@.len() - k,
                {
                    if edges[k].0 == ids[u] && edges[k].1 == ids[v] {
                        found = true;
                    }
                    k = k + 1;
                }
            }
            row.push(found);
            v = v + 1;
        }
        adj.push(row);
        u = u + 1;
    }
    adj
}

/// The layered form of a diagram's nodes and edges. Node `k` is the distinct
/// identifier first listed at position `nodes[k]`; its size is the one listed
/// at `sizes_from[k]`, its last occurrence.
pub struct Hierarchy {
    pub nodes: Vec<usize>,
    pub sizes_from: Vec<usize>,
    pub graph: Vec<Vec<bool>>,
    pub layering: Layering,
    pub rows: Vec<LevelRow>,
}

/// Layer the nodes `ids` (listed in caller order, possibly more than once)
/// along `edges`; edges from a node to itself or with an unknown end are ignored.
pub fn hierarchy(ids: &Vec<String>, edges: &Vec<(String, String)>) -> (h: Hierarchy)
    ensures
        forall|a: int, b: int| 0 <= a < b < h.nodes@.len() ==> h.nodes@[a] < h.nodes@[b],
        forall|a: int|
            0 <= a < h.nodes@.len() ==> #[trigger] h.nodes@[a] < ids@.len() && first_seen(
                ids@,
                h.nodes@[a] as int,
            ),
        forall|i: int|
            0 <= i < ids@.len() && first_seen(ids@, i) ==> exists|a: int|
                0 <= a < h.nodes@.len() && #[trigger] h.nodes@[a] == i,
        h.sizes_from@.len() == h.nodes@.len(),
        forall|a: int|
            0 <= a < h.nodes@.len() ==> last_seen(ids@, h.nodes@[a] as int, #[trigger] h.sizes_from@[a] as int),
        h.graph@.len() == h.nodes@.len(),
        well_formed_graph(h.graph@),
        forall|u: int, v: int|
            0 <= u < h.nodes@.len() && 0 <= v < h.nodes@.len() ==> #[trigger] h.graph@[u]@[v]
                == linked(edges@, ids@[h.nodes@[u] as int]@, ids@[h.nodes@[v] as int]@),
        layering_of(h.graph@, h.layering.levels@, h.layering.layered@),
        rows_of(h.layering.levels@, h.rows@),
{
    let nodes = first_occurrences(ids);
    let mut unique: Vec<String> = Vec::new();
    let mut sizes_from: Vec<usize> = Vec::new();
    let mut k: usize = 0;
    while k < nodes.len()
        invariant
            k <= nodes@.len(),
            unique@.len() == k,
            sizes_from@.len() == k,
            forall|a: int| 0 <= a < nodes@.len() ==> #[trigger] nodes@[a] < ids@.len() && first_seen(ids@, nodes@[a] as int),
            forall|a: int, b: int| 0 <= a < b < nodes@.len() ==> nodes@[a] < nodes@[b],
            forall|i: int|
                0 <= i < ids@.len() && first_seen(ids@, i) ==> exists|a: int|
                    0 <= a < nodes@.len() && #[trigger] nodes@[a] == i,
            forall|a: int| 0 <= a < k ==> #[trigger] unique@[a]@ == ids@[nodes@[a] as int]@,
            forall|a: int|
                0 <= a < k ==> last_seen(ids@, nodes@[a] as int, #[trigger] sizes_from@[a] as int),
        decreases nodes@.len() - k,
    {
        let i = nodes[k];
        unique.push(ids[i].clone());
        sizes_from.push(last_occurrence(ids, i));
        k = k + 1;
    }
    let ghost nodes_v = nodes@;
    let graph = edge_matrix(&unique, edges);
    let layering = layer_levels(&graph);
    let rows = level_rows(&layering.levels);
    let h = Hierarchy { nodes, sizes_from, graph, layering, rows };
    proof {
        assert forall|i: int| 0 <= i < ids@.len() && first_seen(ids@, i) implies exists|a: int|
            0 <= a < h.nodes@.len() && #[trigger] h.nodes@[a] == i by {
            let a = choose|a: int| 0 <= a < nodes_v.len() && #[trigger] nodes_v[a] == i;
            assert(h.nodes@[a] == i);
        }
    }
    h
}

} // verus!
