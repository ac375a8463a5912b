use vstd::prelude::*;
use vstd::set_lib::{lemma_int_range, lemma_len_subset, set_int_range};

verus! {

/// The successor lists of an executable graph, as integers.
pub open spec fn succ_view(succ: Seq<Vec<usize>>) -> Seq<Seq<int>> {
    succ.map_values(|v: Vec<usize>| v@.map_values(|j: usize| j as int))
}

/// Whether `rank` strictly decreases along every edge out of a node of `w`,
/// and `w` holds every successor of its nodes.
pub open spec fn ranked(succ: Seq<Seq<int>>, w: Seq<bool>, rank: Seq<nat>) -> bool {
    &&& w.len() == succ.len()
    &&& rank.len() == succ.len()
    &&& forall|i: int, k: int|
        #![trigger w[i], succ[i][k]]
        0 <= i < succ.len() && w[i] && 0 <= k < succ[i].len() ==> 0 <= succ[i][k] < succ.len()
            && w[succ[i][k]] && rank[succ[i][k]] < rank[i]
}

/// Whether every walk along the edges from node `i` comes to an end.
pub open spec fn grounded(succ: Seq<Seq<int>>, i: int) -> bool {
    exists|w: Seq<bool>, rank: Seq<nat>| ranked(succ, w, rank) && w[i]
}

/// Where every unmarked node has an unmarked successor, no unmarked node lies
/// in a ranked set.
proof fn lemma_unmarked_not_ranked(
    succ: Seq<Seq<int>>,
    marked: Seq<bool>,
    w: Seq<bool>,
    rank: Seq<nat>,
    j: int,
)
    requires
        ranked(succ, w, rank),
        marked.len() == succ.len(),
        0 <= j < succ.len(),
        !marked[j],
        forall|a: int|
            0 <= a < succ.len() && !marked[a] ==> exists|k: int|
                0 <= k < succ[a].len() && 0 <= succ[a][k] < succ.len() && !marked[succ[a][k]],
    ensures
        !w[j],
    decreases rank[j],
{
    if w[j] {
        let k = choose|k: int|
            0 <= k < succ[j].len() && 0 <= succ[j][k] < succ.len() && !marked[succ[j][k]];
        assert(w[succ[j][k]] && rank[succ[j][k]] < rank[j]);
        lemma_unmarked_not_ranked(succ, marked, w, rank, succ[j][k]);
    }
}

/// Which nodes are grounded: from which every walk comes to an end.
pub fn grounded_nodes(succ: &Vec<Vec<usize>>) -> (r: Vec<bool>)
    requires
        forall|i: int, k: int|
            0 <= i < succ@.len() && 0 <= k < succ@[i]@.len() ==> succ@[i]@[k] < succ@.len(),
    ensures
        r@.len() == succ@.len(),
        forall|i: int| 0 <= i < succ@.len() ==> (r@[i] <==> grounded(succ_view(succ@), i)),
{
    let ghost g = succ_view(succ@);
    let n = succ.len();
    let mut marked: Vec<bool> = Vec::new();
    while marked.len() < n
        invariant
            marked@.len() <= n,
            forall|i: int| 0 <= i < marked@.len() ==> !marked@[i],
        decreases n - marked@.len(),
    {
        marked.push(false);
    }
    let ghost mut rank: Seq<nat> = Seq::new(n as nat, |i: int| 0nat);
    let ghost mut mset: Set<int> = Set::empty();
    let mut count: usize = 0;
    let mut changed = true;
    proof {
        lemma_int_range(0, n as int);
    }
    while changed
        invariant
            g == succ_view(succ@),
            n == succ@.len(),
            g.len() == n,
            forall|i: int, j: int| 0 <= i < n && 0 <= j < g[i].len() ==> 0 <= #[trigger] g[i][j] < n,
            marked@.len() == n,
            rank.len() == n,
            mset.finite(),
            mset.len() == count,
            count <= n,
            mset.subset_of(set_int_range(0, n as int)),
            set_int_range(0, n as int).len() == n,
            set_int_range(0, n as int).finite(),
            forall|i: int| 0 <= i < n ==> (marked@[i] <==> mset.contains(i)),
            forall|i: int| 0 <= i < n && marked@[i] ==> rank[i] < count,
            ranked(g, marked@, rank),
            !changed ==> forall|a: int|
                0 <= a < n && !marked@[a] ==> exists|k: int|
                    0 <= k < g[a].len() && 0 <= g[a][k] < n && !marked@[g[a][k]],
        decreases n - count + (if changed { 1int } else { 0int }),
    {
        proof {
            lemma_len_subset(mset, set_int_range(0, n as int));
        }
        changed = false;
        let ghost count0 = count;
        let mut idx: usize = 0;
        while idx < n
            invariant
                g == succ_view(succ@),
                n == succ@.len(),
                g.len() == n,
                forall|i: int, j: int| 0 <= i < n && 0 <= j < g[i].len() ==> 0 <= #[trigger] g[i][j] < n,
                marked@.len() == n,
                rank.len() == n,
                idx <= n,
                count0 <= count,
                changed == (count > count0),
                mset.finite(),
                mset.len() == count,
                count <= n,
                mset.subset_of(set_int_range(0, n as int)),
                set_int_range(0, n as int).len() == n,
                set_int_range(0, n as int).finite(),
                forall|i: int| 0 <= i < n ==> (marked@[i] <==> mset.contains(i)),
                forall|i: int| 0 <= i < n && marked@[i] ==> rank[i] < count,
                ranked(g, marked@, rank),
                !changed ==> forall|a: int|
                    0 <= a < idx && !marked@[a] ==> exists|k: int|
                        0 <= k < g[a].len() && 0 <= g[a][k] < n && !marked@[g[a][k]],
            decreases n - idx,
        {
            if !marked[idx] {
                let next = &succ[idx];
                let mut all = true;
                let mut k: usize = 0;
                while k < next.len()
                    invariant
                        g == succ_view(succ@),
                        n == succ@.len(),
                        idx < n,
                        next@ == succ@[idx as int]@,
                        marked@.len() == n,
                        k <= next@.len(),
                        forall|i: int, j: int|
                            0 <= i < n && 0 <= j < g[i].len() ==> 0 <= #[trigger] g[i][j] < n,
                        all == forall|m: int| 0 <= m < k ==> marked@[g[idx as int][m]],
                    decreases next@.len() - k,
                {
                    assert(g[idx as int][k as int] == next@[k as int] as int);
                    if !marked[next[k]] {
                        all = false;
                    }
                    k = k + 1;
                }
                assert(g[idx as int].len() == next@.len());
                if all {
                    proof {
                        lemma_len_subset(mset, set_int_range(0, n as int));
                        assert(!mset.contains(idx as int));
                        assert(mset.insert(idx as int).len() == mset.len() + 1);
                        assert(mset.insert(idx as int).subset_of(set_int_range(0, n as int)));
                        lemma_len_subset(mset.insert(idx as int), set_int_range(0, n as int));
                    }
                    let ghost old_marked = marked@;
                    let ghost old_rank = rank;
                    marked.set(idx, true);
                    proof {
                        rank = rank.update(idx as int, count as nat);
                        mset = mset.insert(idx as int);
                        assert forall|i: int, m: int|
                            #![trigger marked@[i], g[i][m]]
                            0 <= i < n && marked@[i] && 0 <= m < g[i].len() implies 0 <= g[i][m]
                            < n && marked@[g[i][m]] && rank[g[i][m]] < rank[i] by {
                            if i != idx {
                                assert(old_marked[i]);
                                assert(old_marked[g[i][m]] && old_rank[g[i][m]] < old_rank[i]);
                            } else {
                                assert(old_marked[g[i][m]]);
                            }
                        }
                    }
                    count = count + 1;
                    changed = true;
                }
            }
            idx = idx + 1;
        }
    }
    proof {
        assert forall|i: int| 0 <= i < n implies (marked@[i] <==> grounded(g, i)) by {
            if marked@[i] {
                assert(ranked(g, marked@, rank) && marked@[i]);
            } else if grounded(g, i) {
                let (w, rk) = choose|w: Seq<bool>, rk: Seq<nat>| ranked(g, w, rk) && w[i];
                lemma_unmarked_not_ranked(g, marked@, w, rk, i);
            }
        }
    }
    marked
}

} // verus!
