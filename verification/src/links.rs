//! The synapses of the hallucination screen: each neuron links to its few
//! nearest later neurons within reach.
//!
//! Distances come in as order-preserving integer keys (the bit patterns of
//! non-negative distances), one row per neuron: `dist[i][j]` is the key of
//! the distance from neuron `i` to neuron `j`.
use vstd::prelude::*;

verus! {

/// Most links that one neuron starts.
pub const MAX_LINKS: usize = 4;

/// Neuron `j` is a link candidate of neuron `i`: it comes later and lies
/// within reach.
pub open spec fn candidate(row: Seq<u32>, i: int, limit: u32, j: int) -> bool {
    i < j < row.len() && row[j] < limit
}

/// Candidate `a` ranks before candidate `b`: nearer, or as near and earlier.
pub open spec fn ranks_before(row: Seq<u32>, a: int, b: int) -> bool {
    row[a] < row[b] || (row[a] == row[b] && a < b)
}

/// `picks` are the links that neuron `i` starts among the neurons before
/// `end`: candidates in rank order, and every candidate left out ranks after
/// all of them, which only happens once `MAX_LINKS` are taken.
pub open spec fn nearest_upto(
    row: Seq<u32>,
    i: int,
    limit: u32,
    end: int,
    picks: Seq<usize>,
) -> bool {
    &&& picks.len() <= MAX_LINKS
    &&& forall|r: int|
        0 <= r < picks.len() ==> #[trigger] candidate(row, i, limit, picks[r] as int) && picks[r]
            < end
    &&& forall|r1: int, r2: int|
        0 <= r1 < r2 < picks.len() ==> ranks_before(row, #[trigger] picks[r1] as int, #[trigger] picks[r2] as int)
    &&& forall|k: int|
        #![trigger candidate(row, i, limit, k)]
        candidate(row, i, limit, k) && k < end && !picks.contains(k as usize) ==> picks.len()
            == MAX_LINKS && ranks_before(row, picks[MAX_LINKS - 1] as int, k)
}

/// `picks` are the links that neuron `i` starts.
pub open spec fn is_nearest(row: Seq<u32>, i: int, limit: u32, picks: Seq<usize>) -> bool {
    nearest_upto(row, i, limit, row.len() as int, picks)
}

/// The links that neuron `i` starts, by its row of distance keys.
pub open spec fn nearest_spec(row: Seq<u32>, i: int, limit: u32) -> Seq<usize> {
    choose|picks: Seq<usize>| is_nearest(row, i, limit, picks)
}

/// There is only one way to pick the links of a neuron.
pub proof fn lemma_nearest_unique(row: Seq<u32>, i: int, limit: u32, p: Seq<usize>, q: Seq<usize>)
    requires
        is_nearest(row, i, limit, p),
        is_nearest(row, i, limit, q),
    ensures
        p == q,
{
    lemma_nearest_unique_from(row, i, limit, p, q, 0);
}

proof fn lemma_nearest_unique_from(
    row: Seq<u32>,
    i: int,
    limit: u32,
    p: Seq<usize>,
    q: Seq<usize>,
    r: int,
)
    requires
        is_nearest(row, i, limit, p),
        is_nearest(row, i, limit, q),
        0 <= r,
        forall|s: int| 0 <= s < r ==> p[s] == q[s],
        r <= p.len(),
        r <= q.len(),
    ensures
        p == q,
    decreases (MAX_LINKS + 1) - r,
{
    if r < p.len() && r < q.len() {
        if p[r] != q[r] {
            lemma_first_difference(row, i, limit, p, q, r);
            lemma_first_difference(row, i, limit, q, p, r);
        }
        lemma_nearest_unique_from(row, i, limit, p, q, r + 1);
    } else if r >= p.len() && r >= q.len() {
        assert(p.len() == q.len());
        assert(p =~= q);
    } else if r < q.len() {
        // p is a proper prefix of q: q[r] is a candidate missing from p.
        let k = q[r] as int;
        assert(candidate(row, i, limit, k));
        if p.contains(k as usize) {
            let s = choose|s: int| 0 <= s < p.len() && p[s] == k as usize;
            assert(q[s] == p[s]);
            assert(ranks_before(row, q[s] as int, q[r] as int));
        }
        assert(p.len() == MAX_LINKS);
    } else {
        let k = p[r] as int;
        assert(candidate(row, i, limit, k));
        if q.contains(k as usize) {
            let s = choose|s: int| 0 <= s < q.len() && q[s] == k as usize;
            assert(q[s] == p[s]);
            assert(ranks_before(row, p[s] as int, p[r] as int));
        }
        assert(q.len() == MAX_LINKS);
    }
}

/// Where `p` and `q` first differ, `p` cannot hold the candidate that ranks
/// first, so the two cannot both be valid.
proof fn lemma_first_difference(
    row: Seq<u32>,
    i: int,
    limit: u32,
    p: Seq<usize>,
    q: Seq<usize>,
    r: int,
)
    requires
        is_nearest(row, i, limit, p),
        is_nearest(row, i, limit, q),
        0 <= r < p.len(),
        r < q.len(),
        forall|s: int| 0 <= s < r ==> p[s] == q[s],
        p[r] != q[r],
    ensures
        !ranks_before(row, p[r] as int, q[r] as int),
{
    if !ranks_before(row, p[r] as int, q[r] as int) {
        return;
    }
    let k = p[r] as int;
    assert(candidate(row, i, limit, k));
    if q.contains(k as usize) {
        let s = choose|s: int| 0 <= s < q.len() && q[s] == k as usize;
        if s < r {
            assert(p[s] == q[s]);
            assert(ranks_before(row, p[s] as int, p[r] as int));
        } else {
            assert(s > r);
            assert(ranks_before(row, q[r] as int, q[s] as int));
        }
    } else {
        assert(q.len() == MAX_LINKS);
        if r < MAX_LINKS - 1 {
            assert(ranks_before(row, q[r] as int, q[MAX_LINKS - 1] as int));
        }
    }
}

/// Picks the links that neuron `i` starts: its nearest later neurons whose
/// key is below `limit`, at most `MAX_LINKS`, nearest first, ties broken by
/// the lower index.
pub fn nearest_of(row: &Vec<u32>, i: usize, limit: u32) -> (picks: Vec<usize>)
    ensures
        is_nearest(row@, i as int, limit, picks@),
        picks@ == nearest_spec(row@, i as int, limit),
{
    let n = row.len();
    let mut picks: Vec<usize> = Vec::new();
    if i >= n {
        assert(is_nearest(row@, i as int, limit, picks@));
        proof {
            lemma_nearest_unique(row@, i as int, limit, picks@, nearest_spec(row@, i as int, limit));
        }
        return picks;
    }
    let mut j: usize = i + 1;
    while j < n
        invariant
            n == row@.len(),
            i < j <= n,
            nearest_upto(row@, i as int, limit, j as int, picks@),
        decreases n - j,
    {
        if row[j] < limit {
            let ghost old_picks = picks@;
            assert forall|r: int| 0 <= r < picks@.len() implies #[trigger] picks@[r] < j by {
                assert(candidate(row@, i as int, limit, picks@[r] as int));
            }
            let mut p: usize = 0;
            while p < picks.len() && row[picks[p]] <= row[j]
                invariant
                    n == row@.len(),
                    i < j < n,
                    picks@ == old_picks,
                    nearest_upto(row@, i as int, limit, j as int, picks@),
                    forall|r: int| 0 <= r < picks@.len() ==> #[trigger] picks@[r] < j,
                    p <= picks@.len(),
                    forall|r: int| 0 <= r < p ==> #[trigger] row@[picks@[r] as int] <= row@[j as int],
                decreases picks@.len() - p,
            {
                p = p + 1;
            }
            if p < MAX_LINKS {
                picks.insert(p, j);
                if picks.len() > MAX_LINKS {
                    picks.pop();
                }
                proof {
                    lemma_insert_keeps_nearest(row@, i as int, limit, j as int, old_picks, p as int, picks@);
                }
            } else {
                assert(nearest_upto(row@, i as int, limit, j + 1, picks@)) by {
                    assert forall|k: int|
                        #![trigger candidate(row@, i as int, limit, k)]
                        candidate(row@, i as int, limit, k) && k < j + 1 && !picks@.contains(
                            k as usize,
                        ) implies picks@.len() == MAX_LINKS && ranks_before(
                        row@,
                        picks@[MAX_LINKS - 1] as int,
                        k,
                    ) by {
                        assert(picks@.len() == MAX_LINKS);
                        if k == j {
                            assert(row@[picks@[3] as int] <= row@[j as int]);
                            assert(picks@[3] < j);
                        }
                    }
                }
            }
        } else {
            assert(nearest_upto(row@, i as int, limit, j + 1, picks@)) by {
                assert forall|k: int|
                    #![trigger candidate(row@, i as int, limit, k)]
                    candidate(row@, i as int, limit, k) && k < j + 1 && !picks@.contains(k as usize)
                    implies picks@.len() == MAX_LINKS && ranks_before(
                    row@,
                    picks@[MAX_LINKS - 1] as int,
                    k,
                ) by {
                    assert(k != j);
                }
            }
        }
        j = j + 1;
    }
    proof {
        lemma_nearest_unique(row@, i as int, limit, picks@, nearest_spec(row@, i as int, limit));
    }
    picks
}

proof fn lemma_insert_keeps_nearest(
    row: Seq<u32>,
    i: int,
    limit: u32,
    j: int,
    prev: Seq<usize>,
    p: int,
    next: Seq<usize>,
)
    requires
        0 <= i < j < row.len(),
        row.len() <= usize::MAX,
        row[j] < limit,
        nearest_upto(row, i, limit, j, prev),
        0 <= p <= prev.len(),
        p < MAX_LINKS,
        forall|r: int| 0 <= r < p ==> #[trigger] row[prev[r] as int] <= row[j],
        p < prev.len() ==> row[prev[p] as int] > row[j],
        next == (if prev.len() + 1 > MAX_LINKS {
            prev.insert(p, j as usize).drop_last()
        } else {
            prev.insert(p, j as usize)
        }),
    ensures
        nearest_upto(row, i, limit, j + 1, next),
{
    let ins = prev.insert(p, j as usize);
    assert(ins[p] == j as usize);
    assert forall|r: int| 0 <= r < prev.len() implies #[trigger] prev[r] < j && candidate(
        row,
        i,
        limit,
        prev[r] as int,
    ) by {
        assert(candidate(row, i, limit, prev[r] as int));
    }
    assert forall|r: int| 0 <= r < ins.len() implies #[trigger] candidate(row, i, limit, ins[r] as int)
        && ins[r] < j + 1 by {
        if r > p {
            assert(ins[r] == prev[r - 1]);
            assert(prev[r - 1] < j && candidate(row, i, limit, prev[r - 1] as int));
        } else if r < p {
            assert(ins[r] == prev[r]);
            assert(prev[r] < j && candidate(row, i, limit, prev[r] as int));
        } else {
            assert(ins[r] == j as usize);
            assert(candidate(row, i, limit, j));
        }
    }
    assert forall|r1: int, r2: int| 0 <= r1 < r2 < ins.len() implies ranks_before(
        row,
        #[trigger] ins[r1] as int,
        #[trigger] ins[r2] as int,
    ) by {
        if r2 < p {
            assert(ins[r1] == prev[r1] && ins[r2] == prev[r2]);
            assert(ranks_before(row, prev[r1] as int, prev[r2] as int));
        } else if r2 == p {
            assert(ins[r1] == prev[r1]);
            assert(row[prev[r1] as int] <= row[j]);
        } else if r1 < p {
            assert(ins[r1] == prev[r1] && ins[r2] == prev[r2 - 1]);
            assert(ranks_before(row, prev[r1] as int, prev[r2 - 1] as int));
        } else if r1 == p {
            assert(ins[r2] == prev[r2 - 1]);
            if r2 - 1 > p {
                assert(ranks_before(row, prev[p] as int, prev[r2 - 1] as int));
            }
            assert(row[prev[r2 - 1] as int] > row[j]);
        } else {
            assert(ins[r1] == prev[r1 - 1] && ins[r2] == prev[r2 - 1]);
            assert(ranks_before(row, prev[r1 - 1] as int, prev[r2 - 1] as int));
        }
    }
    assert(next.len() <= MAX_LINKS);
    assert forall|r: int| 0 <= r < next.len() implies #[trigger] next[r] == ins[r] by {}
    assert forall|r: int| 0 <= r < next.len() implies #[trigger] candidate(
        row,
        i,
        limit,
        next[r] as int,
    ) && next[r] < j + 1 by {
        assert(next[r] == ins[r]);
        assert(candidate(row, i, limit, ins[r] as int));
    }
    assert forall|r1: int, r2: int| 0 <= r1 < r2 < next.len() implies ranks_before(
        row,
        #[trigger] next[r1] as int,
        #[trigger] next[r2] as int,
    ) by {
        assert(next[r1] == ins[r1] && next[r2] == ins[r2]);
        assert(ranks_before(row, ins[r1] as int, ins[r2] as int));
    }
    assert forall|k: int|
        #![trigger candidate(row, i, limit, k)]
        candidate(row, i, limit, k) && k < j + 1 && !next.contains(k as usize) implies next.len()
            == MAX_LINKS && ranks_before(row, next[MAX_LINKS - 1] as int, k) by {
        assert(next[p] == j as usize);
        assert(k != j);
        if prev.contains(k as usize) {
            let s = choose|s: int| 0 <= s < prev.len() && prev[s] == k as usize;
            assert(next.len() >= p + 1);
            if s < p {
                assert(ins[s] == prev[s]);
                assert(next[s] == ins[s]);
                assert(next[s] == k as usize);
                assert(next.contains(k as usize));
            } else {
                assert(ins[s + 1] == prev[s]);
                if s + 1 < next.len() {
                    assert(next[s + 1] == ins[s + 1]);
                    assert(next[s + 1] == k as usize);
                    assert(next.contains(k as usize));
                } else {
                    assert(s + 1 == ins.len() - 1);
                    assert(ins.len() == MAX_LINKS + 1);
                    assert(next.len() == MAX_LINKS);
                    assert(next[3] == ins[3]);
                    assert(ranks_before(row, ins[3] as int, ins[4] as int));
                    assert(ins[4] == k as usize);
                }
            }
        } else {
            assert(prev.len() == MAX_LINKS);
            assert(ranks_before(row, prev[3] as int, k));
            assert(ins[4] == prev[3]);
            assert(next[3] == ins[3]);
            assert(ranks_before(row, ins[3] as int, ins[4] as int));
        }
    }
}

/// The links of the first `k` neurons, neuron by neuron, each as
/// `(from, to)`.
pub open spec fn links_upto(dist: Seq<Vec<u32>>, limit: u32, k: nat) -> Seq<(usize, usize)>
    decreases k,
{
    if k == 0 {
        Seq::empty()
    } else {
        let i = (k - 1) as int;
        links_upto(dist, limit, (k - 1) as nat) + nearest_spec(dist[i]@, i, limit).map_values(
            |j: usize| (i as usize, j),
        )
    }
}

/// Builds the synapse list: for each neuron in order, its links to its
/// nearest later neurons within reach, nearest first.
pub fn build_links(dist: &Vec<Vec<u32>>, limit: u32) -> (links: Vec<(usize, usize)>)
    ensures
        links@ == links_upto(dist@, limit, dist@.len()),
{
    let n = dist.len();
    let mut links: Vec<(usize, usize)> = Vec::new();
    let mut i: usize = 0;
    while i < n
        invariant
            n == dist@.len(),
            i <= n,
            links@ == links_upto(dist@, limit, i as nat),
        decreases n - i,
    {
        let picks = nearest_of(&dist[i], i, limit);
        let ghost before = links@;
        let mut r: usize = 0;
        while r < picks.len()
            invariant
                i < n,
                r <= picks@.len(),
                links@ == before + picks@.take(r as int).map_values(|j: usize| (i, j)),
            decreases picks@.len() - r,
        {
            links.push((i, picks[r]));
            r = r + 1;
            assert(picks@.take(r as int).map_values(|j: usize| (i, j)) =~= picks@.take(
                (r - 1) as int,
            ).map_values(|j: usize| (i, j)).push((i, picks@[r - 1])));
        }
        assert(picks@.take(picks@.len() as int) =~= picks@);
        assert(links@ =~= links_upto(dist@, limit, (i + 1) as nat));
        i = i + 1;
    }
    links
}

} // verus!
