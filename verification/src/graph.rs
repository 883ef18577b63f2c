//! Dependency graphs: which step reads from which, and whether the steps
//! can be put in an order that respects the reads.

use vstd::prelude::*;

verus! {

/// A dependency graph over the steps `0 .. len`: `graph[i]` lists the steps
/// that step `i` reads from.
pub type Graph = Seq<Seq<int>>;

/// The graph that lists of step positions stand for.
pub open spec fn graph_model(deps: Seq<Vec<usize>>) -> Graph {
    Seq::new(deps.len(), |i: int| positions_model(deps[i]@))
}

/// A list of step positions as numbers.
pub open spec fn positions_model(deps: Seq<usize>) -> Seq<int> {
    Seq::new(deps.len(), |k: int| deps[k] as int)
}

/// Every step that some step reads from is a step of the graph.
pub open spec fn in_range(graph: Graph) -> bool {
    forall|i: int, k: int|
        0 <= i < graph.len() && 0 <= k < graph[i].len() ==> 0 <= #[trigger] graph[i][k]
            < graph.len()
}

/// `rank` puts every step above all the steps that it reads from.
pub open spec fn is_ranking(graph: Graph, rank: Seq<nat>) -> bool {
    &&& rank.len() == graph.len()
    &&& forall|i: int, k: int|
        0 <= i < graph.len() && 0 <= k < graph[i].len() ==> 0 <= #[trigger] graph[i][k]
            < graph.len() && rank[graph[i][k]] < rank[i]
}

/// The steps can be ordered so that each comes after all that it reads from.
pub open spec fn acyclic(graph: Graph) -> bool {
    exists|rank: Seq<nat>| is_ranking(graph, rank)
}

/// `chain` is a walk along the reads: each of its steps reads from the next.
pub open spec fn is_chain(graph: Graph, chain: Seq<int>) -> bool {
    &&& chain.len() >= 1
    &&& forall|j: int| 0 <= j < chain.len() ==> 0 <= #[trigger] chain[j] < graph.len()
    &&& forall|j: int|
        0 <= j < chain.len() - 1 ==> graph[#[trigger] chain[j]].contains(chain[j + 1])
}

/// Some step reads, directly or through other steps, from itself.
pub open spec fn has_cycle(graph: Graph) -> bool {
    exists|chain: Seq<int>| is_chain(graph, chain) && chain.len() >= 2 && chain[0] == chain.last()
}

/// Along a chain of reads the rank falls.
proof fn lemma_chain_descends(graph: Graph, rank: Seq<nat>, chain: Seq<int>)
    requires
        is_ranking(graph, rank),
        is_chain(graph, chain),
    ensures
        chain.len() >= 2 ==> rank[chain.last()] < rank[chain[0]],
        rank[chain.last()] <= rank[chain[0]],
    decreases chain.len(),
{
    if chain.len() >= 2 {
        let shorter = chain.drop_last();
        assert forall|j: int| 0 <= j < shorter.len() - 1 implies graph[#[trigger] shorter[j]].contains(
            shorter[j + 1],
        ) by {
            assert(shorter[j] == chain[j]);
            assert(shorter[j + 1] == chain[j + 1]);
        }
        assert(is_chain(graph, shorter));
        lemma_chain_descends(graph, rank, shorter);
        let from = chain[chain.len() - 2];
        assert(from == shorter.last());
        assert(graph[from].contains(chain[chain.len() - 2 + 1]));
        let k = choose|k: int| 0 <= k < graph[from].len() && graph[from][k] == chain.last();
        assert(rank[graph[from][k]] < rank[from]);
    }
}

/// A graph whose steps can be ordered has no step that reads from itself,
/// directly or through others.
pub proof fn lemma_acyclic_has_no_cycle(graph: Graph)
    requires
        acyclic(graph),
    ensures
        !has_cycle(graph),
{
    let rank = choose|rank: Seq<nat>| is_ranking(graph, rank);
    assert forall|chain: Seq<int>|
        is_chain(graph, chain) && chain.len() >= 2 implies chain[0] != chain.last() by {
        lemma_chain_descends(graph, rank, chain);
    }
}

/// How many of `flags` are set.
pub open spec fn count_set(flags: Seq<bool>) -> nat
    decreases flags.len(),
{
    if flags.len() == 0 {
        0
    } else {
        count_set(flags.drop_last()) + if flags.last() {
            1nat
        } else {
            0nat
        }
    }
}

/// No more flags are set than there are; where fewer are set, one is
/// clear, and where all are counted, all are set.
proof fn lemma_count_set_bound(flags: Seq<bool>)
    ensures
        count_set(flags) <= flags.len(),
        count_set(flags) < flags.len() ==> exists|i: int| 0 <= i < flags.len() && !flags[i],
        count_set(flags) == flags.len() ==> forall|i: int| 0 <= i < flags.len() ==> flags[i],
    decreases flags.len(),
{
    if flags.len() > 0 {
        let shorter = flags.drop_last();
        lemma_count_set_bound(shorter);
        if !flags.last() {
            assert(!flags[flags.len() - 1]);
        } else if count_set(flags) < flags.len() {
            let i = choose|i: int| 0 <= i < shorter.len() && !shorter[i];
            assert(!flags[i]);
        }
        if count_set(flags) == flags.len() {
            assert forall|i: int| 0 <= i < flags.len() implies flags[i] by {
                if i < shorter.len() {
                    assert(shorter[i]);
                }
            }
        }
    }
}

/// Setting a flag that was clear sets one flag more.
proof fn lemma_count_set_update(flags: Seq<bool>, at: int)
    requires
        0 <= at < flags.len(),
        !flags[at],
    ensures
        count_set(flags.update(at, true)) == count_set(flags) + 1,
    decreases flags.len(),
{
    let updated = flags.update(at, true);
    if at == flags.len() - 1 {
        assert(updated.drop_last() =~= flags.drop_last());
    } else {
        assert(updated.drop_last() =~= flags.drop_last().update(at, true));
        lemma_count_set_update(flags.drop_last(), at);
    }
}

/// Every step that is not done reads from a step that is not done.
pub open spec fn stalled(graph: Graph, done: Seq<bool>) -> bool {
    &&& done.len() == graph.len()
    &&& forall|i: int|
        0 <= i < graph.len() && !#[trigger] done[i] ==> exists|k: int|
            0 <= k < graph[i].len() && !done[#[trigger] graph[i][k]]
}

/// In a stalled graph that can be ordered, nothing is left.
proof fn lemma_stalled_descent(graph: Graph, done: Seq<bool>, rank: Seq<nat>, i: int)
    requires
        in_range(graph),
        stalled(graph, done),
        is_ranking(graph, rank),
        0 <= i < graph.len(),
    ensures
        done[i],
    decreases rank[i],
{
    if !done[i] {
        let k = choose|k: int| 0 <= k < graph[i].len() && !done[#[trigger] graph[i][k]];
        lemma_stalled_descent(graph, done, rank, graph[i][k]);
    }
}

/// A step that is left and that `i`, which is left, reads from.
pub open spec fn next_left(graph: Graph, done: Seq<bool>, i: int) -> int {
    let k = choose|k: int| 0 <= k < graph[i].len() && !done[#[trigger] graph[i][k]];
    graph[i][k]
}

/// The walk of `steps` reads that begins at `start` and goes on from each
/// step to a step that it reads from and that is left.
pub open spec fn walk_left(graph: Graph, done: Seq<bool>, start: int, steps: nat) -> Seq<int>
    decreases steps,
{
    if steps == 0 {
        seq![start]
    } else {
        let before = walk_left(graph, done, start, (steps - 1) as nat);
        before.push(next_left(graph, done, before.last()))
    }
}

/// The walk is a chain of reads through steps that are left.
proof fn lemma_walk_left(graph: Graph, done: Seq<bool>, start: int, steps: nat)
    requires
        in_range(graph),
        stalled(graph, done),
        0 <= start < graph.len(),
        !done[start],
    ensures
        walk_left(graph, done, start, steps).len() == steps + 1,
        is_chain(graph, walk_left(graph, done, start, steps)),
        forall|j: int|
            0 <= j <= steps ==> !done[#[trigger] walk_left(graph, done, start, steps)[j]],
    decreases steps,
{
    if steps > 0 {
        let before = walk_left(graph, done, start, (steps - 1) as nat);
        lemma_walk_left(graph, done, start, (steps - 1) as nat);
        let from = before.last();
        assert(!done[before[steps - 1]]);
        let k = choose|k: int| 0 <= k < graph[from].len() && !done[#[trigger] graph[from][k]];
        let walk = walk_left(graph, done, start, steps);
        assert(walk == before.push(graph[from][k]));
        assert(graph[from].contains(graph[from][k]));
        assert forall|j: int| 0 <= j < walk.len() implies 0 <= #[trigger] walk[j]
            < graph.len() by {
            if j < before.len() {
                assert(walk[j] == before[j]);
            }
        }
        assert forall|j: int| 0 <= j < walk.len() - 1 implies graph[#[trigger] walk[j]].contains(
            walk[j + 1],
        ) by {
            if j < before.len() - 1 {
                assert(walk[j] == before[j]);
                assert(walk[j + 1] == before[j + 1]);
            }
        }
        assert forall|j: int| 0 <= j <= steps implies !done[#[trigger] walk[j]] by {
            if j < steps {
                assert(walk[j] == before[j]);
            }
        }
    }
}

/// More numbers than `n`, all of them below `n`: two of them are the same.
proof fn lemma_two_are_the_same(s: Seq<int>, n: nat)
    requires
        s.len() > n,
        forall|i: int| 0 <= i < s.len() ==> 0 <= #[trigger] s[i] < n,
    ensures
        exists|a: int, b: int| 0 <= a < b < s.len() && s[a] == s[b],
    decreases n,
{
    if n == 0 {
        assert(s[0] < n);
    } else if exists|p: int| 0 <= p < s.len() && s[p] == n - 1 {
        let p = choose|p: int| 0 <= p < s.len() && s[p] == n - 1;
        if exists|q: int| 0 <= q < s.len() && q != p && s[q] == n - 1 {
            let q = choose|q: int| 0 <= q < s.len() && q != p && s[q] == n - 1;
            if p < q {
                assert(s[p] == s[q]);
            } else {
                assert(s[q] == s[p]);
            }
        } else {
            let t = s.remove(p);
            assert forall|i: int| 0 <= i < t.len() implies 0 <= #[trigger] t[i] < n - 1 by {
                if i < p {
                    assert(t[i] == s[i]);
                } else {
                    assert(t[i] == s[i + 1]);
                }
            }
            lemma_two_are_the_same(t, (n - 1) as nat);
            let (a, b) = choose|a: int, b: int| 0 <= a < b < t.len() && t[a] == t[b];
            let a2 = if a < p {
                a
            } else {
                a + 1
            };
            let b2 = if b < p {
                b
            } else {
                b + 1
            };
            assert(s[a2] == t[a] && s[b2] == t[b]);
            assert(0 <= a2 < b2 < s.len() && s[a2] == s[b2]);
        }
    } else {
        assert forall|i: int| 0 <= i < s.len() implies 0 <= #[trigger] s[i] < n - 1 by {}
        lemma_two_are_the_same(s, (n - 1) as nat);
    }
}

/// Where some step is left and every step that is left waits for another
/// that is left, some step reads from itself through others, and the steps
/// cannot be ordered.
pub proof fn lemma_stalled_is_cyclic(graph: Graph, done: Seq<bool>, left: int)
    requires
        in_range(graph),
        stalled(graph, done),
        0 <= left < graph.len(),
        !done[left],
    ensures
        !acyclic(graph),
        has_cycle(graph),
{
    assert forall|rank: Seq<nat>| !is_ranking(graph, rank) by {
        if is_ranking(graph, rank) {
            lemma_stalled_descent(graph, done, rank, left);
        }
    }
    let walk = walk_left(graph, done, left, graph.len());
    lemma_walk_left(graph, done, left, graph.len());
    lemma_two_are_the_same(walk, graph.len());
    let (a, b) = choose|a: int, b: int| 0 <= a < b < walk.len() && walk[a] == walk[b];
    let round = walk.subrange(a, b + 1);
    assert forall|j: int| 0 <= j < round.len() implies 0 <= #[trigger] round[j] < graph.len() by {
        assert(round[j] == walk[a + j]);
    }
    assert forall|j: int| 0 <= j < round.len() - 1 implies graph[#[trigger] round[j]].contains(
        round[j + 1],
    ) by {
        assert(round[j] == walk[a + j]);
        assert(round[j + 1] == walk[a + j + 1]);
    }
    assert(is_chain(graph, round) && round.len() >= 2 && round[0] == round.last());
}

/// Step `i` can be placed within `rounds` rounds: every step that it reads
/// from can be placed within fewer.
pub open spec fn placed(graph: Graph, i: int, rounds: nat) -> bool
    decreases rounds,
{
    rounds > 0 && forall|x: int|
        0 <= x < graph[i].len() ==> placed(graph, #[trigger] graph[i][x], (rounds - 1) as nat)
}

/// Step `i` can be placed within some number of rounds.
pub open spec fn placeable(graph: Graph, i: int) -> bool {
    exists|rounds: nat| placed(graph, i, rounds)
}

/// A step that can be placed within some rounds can be placed within more.
proof fn lemma_placed_later(graph: Graph, i: int, rounds: nat, more: nat)
    requires
        placed(graph, i, rounds),
        rounds <= more,
    ensures
        placed(graph, i, more),
    decreases rounds,
{
    assert forall|x: int| 0 <= x < graph[i].len() implies placed(
        graph,
        #[trigger] graph[i][x],
        (more - 1) as nat,
    ) by {
        lemma_placed_later(graph, graph[i][x], (rounds - 1) as nat, (more - 1) as nat);
    }
}

/// Where each of the first `upto` steps that `i` reads from can be placed
/// at all, one number of rounds does for all of them.
proof fn lemma_placed_together(graph: Graph, i: int, upto: int) -> (rounds: nat)
    requires
        0 <= upto <= graph[i].len(),
        forall|x: int| 0 <= x < upto ==> placeable(graph, #[trigger] graph[i][x]),
    ensures
        forall|x: int| 0 <= x < upto ==> placed(graph, #[trigger] graph[i][x], rounds),
    decreases upto,
{
    if upto == 0 {
        0
    } else {
        let before = lemma_placed_together(graph, i, upto - 1);
        let d = graph[i][upto - 1];
        assert(placeable(graph, d));
        let k = choose|k: nat| placed(graph, d, k);
        let rounds = if before <= k {
            k
        } else {
            before
        };
        assert forall|x: int| 0 <= x < upto implies placed(
            graph,
            #[trigger] graph[i][x],
            rounds,
        ) by {
            if x < upto - 1 {
                lemma_placed_later(graph, graph[i][x], before, rounds);
            } else {
                lemma_placed_later(graph, d, k, rounds);
            }
        }
        rounds
    }
}

/// A step that can be placed has a least number of rounds within which it
/// can be placed.
proof fn lemma_least_rounds(graph: Graph, i: int, rounds: nat) -> (least: nat)
    requires
        placed(graph, i, rounds),
    ensures
        placed(graph, i, least),
        forall|k: nat| k < least ==> !placed(graph, i, k),
    decreases rounds,
{
    if exists|k: nat| k < rounds && placed(graph, i, k) {
        let k = choose|k: nat| k < rounds && placed(graph, i, k);
        lemma_least_rounds(graph, i, k)
    } else {
        rounds
    }
}

/// The least number of rounds within which step `i` can be placed.
pub open spec fn least_rounds(graph: Graph, i: int) -> nat {
    choose|least: nat|
        placed(graph, i, least) && forall|k: nat| k < least ==> !placed(graph, i, k)
}

/// A graph in which no step reads from itself, directly or through other
/// steps, can be ordered. With `lemma_acyclic_has_no_cycle`, the graphs that
/// can be ordered are those without such a step.
pub proof fn lemma_no_cycle_can_be_ordered(graph: Graph)
    requires
        in_range(graph),
        !has_cycle(graph),
    ensures
        acyclic(graph),
{
    let done = Seq::new(graph.len(), |i: int| placeable(graph, i));
    assert forall|i: int| 0 <= i < graph.len() && !#[trigger] done[i] implies exists|x: int|
        0 <= x < graph[i].len() && !done[#[trigger] graph[i][x]] by {
        if forall|x: int| 0 <= x < graph[i].len() ==> done[#[trigger] graph[i][x]] {
            assert forall|x: int| 0 <= x < graph[i].len() implies placeable(
                graph,
                #[trigger] graph[i][x],
            ) by {
                assert(done[graph[i][x]]);
            }
            let rounds = lemma_placed_together(graph, i, graph[i].len() as int);
            assert(placed(graph, i, rounds + 1));
            assert(placeable(graph, i));
        }
    }
    assert(stalled(graph, done));
    if exists|i: int| 0 <= i < graph.len() && !done[i] {
        let left = choose|i: int| 0 <= i < graph.len() && !done[i];
        lemma_stalled_is_cyclic(graph, done, left);
    }
    let rank = Seq::new(graph.len(), |i: int| least_rounds(graph, i));
    assert forall|i: int, x: int| 0 <= i < graph.len() && 0 <= x < graph[i].len() implies 0
        <= #[trigger] graph[i][x] < graph.len() && rank[graph[i][x]] < rank[i] by {
        let d = graph[i][x];
        assert(done[i] && done[d]);
        assert(placeable(graph, i) && placeable(graph, d));
        let ki = choose|k: nat| placed(graph, i, k);
        let least_i = lemma_least_rounds(graph, i, ki);
        let kd = choose|k: nat| placed(graph, d, k);
        let least_d = lemma_least_rounds(graph, d, kd);
        assert(placed(graph, d, (least_rounds(graph, i) - 1) as nat));
    }
    assert(is_ranking(graph, rank));
}

/// Whether every one of `deps` is marked in `done`.
fn all_done(deps: &Vec<usize>, done: &Vec<bool>) -> (r: bool)
    requires
        forall|k: int| 0 <= k < deps.len() ==> deps[k] < done.len(),
    ensures
        r == forall|k: int| 0 <= k < deps.len() ==> done[deps[k] as int],
{
    let mut k: usize = 0;
    while k < deps.len()
        invariant
            k <= deps.len(),
            forall|j: int| 0 <= j < deps.len() ==> deps[j] < done.len(),
            forall|j: int| 0 <= j < k ==> done[deps[j] as int],
        decreases deps.len() - k,
    {
        if !done[deps[k]] {
            return false;
        }
        k += 1;
    }
    true
}

/// The ranks in a list, as numbers.
pub open spec fn ranks_model(rank: Seq<usize>) -> Seq<nat> {
    Seq::new(rank.len(), |i: int| rank[i] as nat)
}

/// Looks for an order of the steps in which each comes after all the steps
/// that it reads from, and returns each step's place in it.
pub(crate) fn find_order(deps: &Vec<Vec<usize>>) -> (r: Option<Vec<usize>>)
    requires
        in_range(graph_model(deps@)),
    ensures
        match r {
            Some(rank) => is_ranking(graph_model(deps@), ranks_model(rank@)),
            None => !acyclic(graph_model(deps@)) && has_cycle(graph_model(deps@)),
        },
{
    let n = deps.len();
    let ghost graph = graph_model(deps@);
    let mut rank: Vec<usize> = Vec::new();
    let mut done: Vec<bool> = Vec::new();
    let mut i: usize = 0;
    while i < n
        invariant
            i <= n,
            rank.len() == i,
            done.len() == i,
            forall|j: int| 0 <= j < i ==> !done[j],
            count_set(done@) == 0,
        decreases n - i,
    {
        let ghost before = done@;
        rank.push(0);
        done.push(false);
        assert(done@.drop_last() =~= before);
        i += 1;
    }
    let mut count: usize = 0;
    while count < n
        invariant
            n == deps.len(),
            graph == graph_model(deps@),
            in_range(graph),
            rank.len() == n,
            done.len() == n,
            count <= n,
            count == count_set(done@),
            forall|j: int| 0 <= j < n && done[j] ==> rank[j] < count,
            forall|j: int, k: int|
                0 <= j < n && done[j] && 0 <= k < deps[j].len() ==> done[#[trigger] deps[j][k] as int]
                    && rank[deps[j][k] as int] < rank[j],
        decreases n - count,
    {
        let before = count;
        let ghost done_before = done@;
        let mut i: usize = 0;
        while i < n
            invariant
                i <= n,
                n == deps.len(),
                graph == graph_model(deps@),
                in_range(graph),
                rank.len() == n,
                done.len() == n,
                before <= count <= n,
                before < n,
                count == count_set(done@),
                forall|j: int| 0 <= j < n && done[j] ==> rank[j] < count,
                forall|j: int, k: int|
                    0 <= j < n && done[j] && 0 <= k < deps[j].len() ==> done[#[trigger] deps[j][k] as int]
                        && rank[deps[j][k] as int] < rank[j],
                count == before ==> done@ == done_before,
                count == before ==> forall|j: int|
                    0 <= j < i && !#[trigger] done[j] ==> exists|k: int|
                        0 <= k < deps[j].len() && !done[#[trigger] deps[j][k] as int],
            decreases n - i,
        {
            proof {
                assert forall|k: int| 0 <= k < deps[i as int].len() implies deps[i as int][k]
                    < done.len() by {
                    assert(graph[i as int][k] == deps[i as int][k]);
                }
            }
            if !done[i] {
                if all_done(&deps[i], &done) {
                    proof {
                        lemma_count_set_update(done@, i as int);
                        lemma_count_set_bound(done@.update(i as int, true));
                    }
                    let ghost done0 = done@;
                    let ghost rank0 = rank@;
                    done.set(i, true);
                    rank.set(i, count);
                    proof {
                        assert forall|j: int, k: int|
                            0 <= j < n && done[j] && 0 <= k < deps[j].len() implies done[#[trigger] deps[j][k] as int]
                            && rank[deps[j][k] as int] < rank[j] by {
                            let d = deps[j][k] as int;
                            assert(graph[j][k] == d);
                            if j == i {
                                assert(done0[d]);
                                assert(rank0[d] < count);
                            } else {
                                assert(done0[j]);
                                assert(done0[d] && rank0[d] < rank0[j]);
                            }
                        }
                    }
                    count += 1;
                }
            }
            i += 1;
        }
        if count == before {
            proof {
                lemma_count_set_bound(done@);
                let left = choose|j: int| 0 <= j < done@.len() && !done@[j];
                assert forall|j: int| 0 <= j < graph.len() && !#[trigger] done@[j] implies exists|
                    k: int,
                |
                    0 <= k < graph[j].len() && !done@[#[trigger] graph[j][k]] by {
                    let k = choose|k: int|
                        0 <= k < deps[j].len() && !done[#[trigger] deps[j][k] as int];
                    assert(graph[j][k] == deps[j][k]);
                }
                lemma_stalled_is_cyclic(graph, done@, left);
            }
            return None;
        }
    }
    proof {
        lemma_count_set_bound(done@);
        assert forall|j: int, k: int| 0 <= j < graph.len() && 0 <= k < graph[j].len() implies 0
            <= #[trigger] graph[j][k] < graph.len() && ranks_model(rank@)[graph[j][k]]
            < ranks_model(rank@)[j] by {
            assert(graph[j][k] == deps[j][k]);
            assert(done[j]);
        }
    }
    Some(rank)
}

} // verus!
