//! All-pairs shortest paths over the adjacency matrix: zero the diagonal,
//! then for each intermediate vertex relax every pair through it. On
//! return each entry is the exact weight of the cheapest directed walk
//! between its vertices, under saturating addition: no walk is cheaper,
//! and some walk realizes every entry.

use vstd::prelude::*;

use crate::optimization::matrix::AdjacencyMatrix;
use crate::optimization::tsp::spec_sat_add;

verus! {

/// The edge weights of a run: the input matrix with its diagonal zeroed.
pub open spec fn spec_zero_diag(m: &AdjacencyMatrix<u64>, f: int, t: int) -> u64 {
    if f == t {
        0
    } else {
        m.spec_weight(f, t)
    }
}

/// A directed walk from `f` to `t`: its vertices in visit order, every one
/// inside the matrix.
pub open spec fn spec_is_path(m: &AdjacencyMatrix<u64>, p: Seq<usize>, f: int, t: int) -> bool {
    &&& p.len() >= 1
    &&& p[0] == f
    &&& p.last() == t
    &&& forall|q: int| 0 <= q < p.len() ==> p[q] < m.size
}

/// The saturating total weight of a walk over the zero-diagonal entries of
/// `m`.
pub open spec fn spec_path_weight(m: &AdjacencyMatrix<u64>, p: Seq<usize>) -> u64
    decreases p.len(),
{
    if p.len() <= 1 {
        0
    } else {
        spec_sat_add(
            spec_path_weight(m, p.drop_last()),
            spec_zero_diag(m, p[p.len() - 2] as int, p[p.len() - 1] as int),
        )
    }
}

/// Whether every intermediate vertex of a walk lies below `k`.
pub open spec fn spec_intermediates_below(p: Seq<usize>, k: int) -> bool {
    forall|q: int| 1 <= q < p.len() - 1 ==> p[q] < k
}

/// Whether some walk over `m0` from `f` to `t` weighs exactly the entry
/// `cur` holds for the pair.
pub open spec fn spec_realized(m0: AdjacencyMatrix<u64>, cur: AdjacencyMatrix<u64>, f: int, t: int) -> bool {
    exists|p: Seq<usize>|
        #![trigger spec_is_path(&m0, p, f, t)]
        spec_is_path(&m0, p, f, t) && cur.spec_weight(f, t) == spec_path_weight(&m0, p)
}

/// Saturating addition never shrinks when its arguments grow.
proof fn lemma_sat_add_monotone(a: u64, b: u64, a2: u64, b2: u64)
    requires
        a <= a2,
        b <= b2,
    ensures
        spec_sat_add(a, b) <= spec_sat_add(a2, b2),
{
}

/// Joining two walks at a shared vertex adds their weights.
proof fn lemma_path_weight_concat(m: &AdjacencyMatrix<u64>, p1: Seq<usize>, p2: Seq<usize>)
    requires
        p1.len() >= 1,
        p2.len() >= 1,
        p1.last() == p2[0],
    ensures
        spec_path_weight(m, p1 + p2.drop_first()) == spec_sat_add(
            spec_path_weight(m, p1),
            spec_path_weight(m, p2),
        ),
    decreases p2.len(),
{
    if p2.len() == 1 {
        assert(p1 + p2.drop_first() =~= p1);
    } else {
        let shorter_tail = p2.drop_last();
        lemma_path_weight_concat(m, p1, shorter_tail);
        let whole = p1 + p2.drop_first();
        let shorter = p1 + shorter_tail.drop_first();
        assert(whole.len() == p1.len() + p2.len() - 1);
        assert(whole =~= shorter.push(p2.last()));
        assert(whole.drop_last() =~= shorter);
        assert(whole[whole.len() - 2] == p2[p2.len() - 2] && whole[whole.len() - 1] == p2[p2.len()
            - 1]);
        let a = spec_path_weight(m, p1);
        let b = spec_path_weight(m, shorter_tail);
        let c = spec_zero_diag(m, p2[p2.len() - 2] as int, p2[p2.len() - 1] as int);
        assert(spec_path_weight(m, whole) == spec_sat_add(spec_sat_add(a, b), c));
        assert(spec_sat_add(spec_sat_add(a, b), c) == spec_sat_add(a, spec_sat_add(b, c)));
    }
}

/// A two-vertex walk weighs its one edge.
proof fn lemma_edge_path_weight(m: &AdjacencyMatrix<u64>, f: int, t: int)
    requires
        0 <= f <= usize::MAX,
        0 <= t <= usize::MAX,
    ensures
        spec_path_weight(m, seq![f as usize, t as usize]) == spec_zero_diag(m, f, t),
{
    let p = seq![f as usize, t as usize];
    let single = seq![f as usize];
    assert(p.drop_last() =~= single);
    assert(spec_path_weight(m, single) == 0);
    assert(p[p.len() - 2] == f as usize && p[p.len() - 1] == t as usize);
    assert(spec_path_weight(m, p) == spec_sat_add(0, spec_zero_diag(m, f, t)));
}

/// Joining a walk to `mid` with a walk from `mid` yields a walk whose
/// weight is the saturating sum of the two.
proof fn lemma_join_paths(
    m: &AdjacencyMatrix<u64>,
    p1: Seq<usize>,
    p2: Seq<usize>,
    f: int,
    mid: int,
    t: int,
)
    requires
        spec_is_path(m, p1, f, mid),
        spec_is_path(m, p2, mid, t),
    ensures
        spec_is_path(m, p1 + p2.drop_first(), f, t),
        spec_path_weight(m, p1 + p2.drop_first()) == spec_sat_add(
            spec_path_weight(m, p1),
            spec_path_weight(m, p2),
        ),
{
    lemma_path_weight_concat(m, p1, p2);
    let pw = p1 + p2.drop_first();
    assert(pw.len() == p1.len() + p2.len() - 1);
    assert(pw[0] == p1[0]);
    if p2.len() == 1 {
        assert(pw =~= p1);
    } else {
        assert(pw.last() == p2.drop_first()[p2.len() - 2]);
        assert(p2.drop_first()[p2.len() - 2] == p2.last());
    }
    assert forall|q: int| 0 <= q < pw.len() implies pw[q] < m.size by {
        if q < p1.len() {
            assert(pw[q] == p1[q]);
        } else {
            assert(pw[q] == p2.drop_first()[q - p1.len()]);
            assert(p2.drop_first()[q - p1.len()] == p2[q - p1.len() + 1]);
        }
    }
}

/// The step of the classic all-pairs induction. Before the pass over
/// intermediate `k`, `pass0` undercuts every walk whose intermediates lie
/// below `k`. The pass leaves row and column `k` alone, only lowers
/// entries, and bounds each pair by the detour through `k`; so afterwards
/// `cur` undercuts every walk whose intermediates lie below `k + 1`.
proof fn lemma_paths_through_k(
    m0: &AdjacencyMatrix<u64>,
    pass0: &AdjacencyMatrix<u64>,
    cur: &AdjacencyMatrix<u64>,
    k: int,
    p: Seq<usize>,
    f: int,
    t: int,
)
    requires
        pass0.size == m0.size,
        cur.size == m0.size,
        0 <= k < m0.size,
        forall|p2: Seq<usize>, f2: int, t2: int|
            #![trigger spec_is_path(m0, p2, f2, t2)]
            spec_is_path(m0, p2, f2, t2) && spec_intermediates_below(p2, k)
                ==> pass0.spec_weight(f2, t2) <= spec_path_weight(m0, p2),
        forall|x: int|
            0 <= x < m0.size ==> #[trigger] cur.spec_weight(k, x) == pass0.spec_weight(k, x)
                && cur.spec_weight(x, k) == pass0.spec_weight(x, k),
        forall|x: int, y: int|
            m0.spec_in_bounds(x, y) ==> #[trigger] cur.spec_weight(x, y) <= pass0.spec_weight(
                x,
                y,
            ),
        forall|x: int, y: int|
            m0.spec_in_bounds(x, y) ==> #[trigger] cur.spec_weight(x, y) <= spec_sat_add(
                pass0.spec_weight(x, k),
                pass0.spec_weight(k, y),
            ),
        spec_is_path(m0, p, f, t),
        spec_intermediates_below(p, k + 1),
    ensures
        cur.spec_weight(f, t) <= spec_path_weight(m0, p),
    decreases p.len(),
{
    if forall|q: int| 1 <= q < p.len() - 1 ==> p[q] != k {
        assert(spec_intermediates_below(p, k));
        assert(pass0.spec_weight(f, t) <= spec_path_weight(m0, p));
        assert(cur.spec_weight(f, t) <= pass0.spec_weight(f, t));
    } else {
        let q0 = choose|q: int| 1 <= q < p.len() - 1 && p[q] == k;
        let p1 = p.subrange(0, q0 + 1);
        let p2 = p.subrange(q0, p.len() as int);
        assert(p1.len() == q0 + 1 && p2.len() == p.len() - q0);
        assert(p1[0] == f && p1.last() == p[q0]);
        assert(p2[0] == p[q0] && p2.last() == t);
        assert(spec_is_path(m0, p1, f, k));
        assert(spec_is_path(m0, p2, k, t));
        assert(spec_intermediates_below(p1, k + 1)) by {
            assert(forall|q: int| 1 <= q < p1.len() - 1 ==> p1[q] == p[q]);
        }
        assert(spec_intermediates_below(p2, k + 1)) by {
            assert(forall|q: int| 1 <= q < p2.len() - 1 ==> p2[q] == p[q0 + q]);
        }
        lemma_paths_through_k(m0, pass0, cur, k, p1, f, k);
        lemma_paths_through_k(m0, pass0, cur, k, p2, k, t);
        assert(p[0] < m0.size && p.last() < m0.size);
        assert(0 <= f < m0.size && 0 <= t < m0.size);
        assert(cur.spec_weight(k, f) == pass0.spec_weight(k, f) && cur.spec_weight(f, k)
            == pass0.spec_weight(f, k));
        assert(cur.spec_weight(k, t) == pass0.spec_weight(k, t));
        assert(pass0.spec_weight(f, k) <= spec_path_weight(m0, p1));
        assert(pass0.spec_weight(k, t) <= spec_path_weight(m0, p2));
        lemma_sat_add_monotone(
            pass0.spec_weight(f, k),
            pass0.spec_weight(k, t),
            spec_path_weight(m0, p1),
            spec_path_weight(m0, p2),
        );
        lemma_path_weight_concat(m0, p1, p2);
        assert(p =~= p1 + p2.drop_first());
        assert(cur.spec_weight(f, t) <= spec_sat_add(
            pass0.spec_weight(f, k),
            pass0.spec_weight(k, t),
        ));
    }
}

/// Runs the relaxation `d[i][j] = min(d[i][j], d[i][k] + d[k][j])` for
/// every intermediate `k` (scalar), source `i` (scalar) and destination `j`
/// over the whole matrix, after setting every vertex's distance to itself
/// to zero. Afterwards each entry is the exact weight of the cheapest
/// directed walk between its vertices over the zero-diagonal input, under
/// saturating addition: no walk is cheaper and some walk realizes the
/// entry. In particular the final entries satisfy the triangle inequality
/// and never exceed the zero-diagonal input.
#[verifier::rlimit(100)]
pub fn floyd_warshall_simd(matrix: &mut AdjacencyMatrix<u64>)
    requires
        old(matrix).wf(),
    ensures
        final(matrix).wf(),
        final(matrix).size == old(matrix).size,
        forall|v: int| 0 <= v < final(matrix).size ==> final(matrix).spec_weight(v, v) == 0,
        forall|p: Seq<usize>, f: int, t: int|
            #![trigger spec_is_path(old(matrix), p, f, t)]
            spec_is_path(old(matrix), p, f, t) ==> final(matrix).spec_weight(f, t)
                <= spec_path_weight(old(matrix), p),
        forall|f: int, t: int|
            old(matrix).spec_in_bounds(f, t) ==> #[trigger] spec_realized(
                *old(matrix),
                *final(matrix),
                f,
                t,
            ),
        forall|f: int, t: int|
            #![trigger final(matrix).spec_weight(f, t)]
            old(matrix).spec_in_bounds(f, t) ==> final(matrix).spec_weight(f, t) <= spec_zero_diag(
                old(matrix),
                f,
                t,
            ),
        forall|f: int, t: int, k: int|
            old(matrix).spec_in_bounds(f, t) && 0 <= k < old(matrix).size ==> final(matrix).spec_weight(
                f,
                t,
            ) <= #[trigger] spec_sat_add(
                spec_zero_diag(old(matrix), f, k),
                spec_zero_diag(old(matrix), k, t),
            ),
        forall|f: int, t: int, k: int|
            old(matrix).spec_in_bounds(f, t) && 0 <= k < old(matrix).size ==> final(matrix).spec_weight(
                f,
                t,
            ) <= #[trigger] spec_sat_add(
                final(matrix).spec_weight(f, k),
                final(matrix).spec_weight(k, t),
            ),
{
    let n = matrix.size;
    let ghost m0 = *old(matrix);

    let mut v: usize = 0;
    while v < n
        invariant
            matrix.wf(),
            matrix.size == m0.size,
            m0 == *old(matrix),
            m0.wf(),
            n == matrix.size,
            v <= n,
            forall|q: int|
                #![trigger matrix.spec_weight(q, q)]
                0 <= q < v ==> matrix.spec_weight(q, q) == 0,
            forall|f: int, t: int|
                #![trigger matrix.spec_weight(f, t)]
                matrix.spec_in_bounds(f, t) ==> matrix.spec_weight(f, t) == spec_zero_diag(
                    &m0,
                    f,
                    t,
                ) || (f == t && f >= v && matrix.spec_weight(f, t) == m0.spec_weight(f, t)),
        decreases n - v,
    {
        let ghost before = *matrix;
        matrix.set_weight_at(v, v, 0);
        proof {
            lemma_weight_update_pair(matrix, &before, v as int, v as int, 0u64);
            assert forall|q: int| 0 <= q < v + 1 implies #[trigger] matrix.spec_weight(q, q)
                == 0 by {
                if q < v {
                    assert(matrix.spec_weight(q, q) == before.spec_weight(q, q));
                }
            }
            assert forall|f: int, t: int| matrix.spec_in_bounds(f, t) implies (
            #[trigger] matrix.spec_weight(f, t) == spec_zero_diag(&m0, f, t) || (f == t && f >= v
                + 1 && matrix.spec_weight(f, t) == m0.spec_weight(f, t))) by {
                if !(f == v && t == v) {
                    assert(matrix.spec_weight(f, t) == before.spec_weight(f, t));
                }
            }
        }
        v = v + 1;
    }

    proof {
        assert forall|p: Seq<usize>, f: int, t: int|
            #![trigger spec_is_path(&m0, p, f, t)]
            spec_is_path(&m0, p, f, t) && spec_intermediates_below(
                p,
                0,
            ) implies matrix.spec_weight(f, t) <= spec_path_weight(&m0, p) by {
            if p.len() >= 3 {
                assert(p[1] < 0);
                assert(false);
            } else if p.len() == 2 {
                assert(p =~= seq![f as usize, t as usize]);
                lemma_edge_path_weight(&m0, f, t);
            } else {
                assert(f == t);
            }
        }
        assert forall|x: int, y: int| 0 <= x < n && 0 <= y < n implies #[trigger] spec_realized(
            m0,
            *matrix,
            x,
            y,
        ) by {
            if x == y {
                let pw = seq![x as usize];
                assert(spec_is_path(&m0, pw, x, y));
                assert(spec_path_weight(&m0, pw) == 0);
                assert(matrix.spec_weight(x, y) == spec_path_weight(&m0, pw));
            } else {
                let pw = seq![x as usize, y as usize];
                assert(spec_is_path(&m0, pw, x, y));
                lemma_edge_path_weight(&m0, x, y);
                assert(matrix.spec_weight(x, y) == spec_path_weight(&m0, pw));
            }
        }
    }

    let mut k: usize = 0;
    while k < n
        invariant
            matrix.wf(),
            matrix.size == m0.size,
            m0 == *old(matrix),
            m0.wf(),
            n == matrix.size,
            k <= n,
            forall|q: int|
                #![trigger matrix.spec_weight(q, q)]
                0 <= q < n ==> matrix.spec_weight(q, q) == 0,
            forall|p: Seq<usize>, f: int, t: int|
                #![trigger spec_is_path(&m0, p, f, t)]
                spec_is_path(&m0, p, f, t) && spec_intermediates_below(p, k as int)
                    ==> matrix.spec_weight(f, t) <= spec_path_weight(&m0, p),
            forall|x: int, y: int|
                0 <= x < n && 0 <= y < n ==> #[trigger] spec_realized(m0, *matrix, x, y),
        decreases n - k,
    {
        let ghost pass0 = *matrix;
        let mut i: usize = 0;
        while i < n
            invariant
                matrix.wf(),
                matrix.size == m0.size,
                m0.wf(),
                n == matrix.size,
                k < n,
                i <= n,
                pass0.size == n,
                pass0.wf(),
                forall|q: int|
                    #![trigger matrix.spec_weight(q, q)]
                    0 <= q < n ==> matrix.spec_weight(q, q) == 0,
                forall|x: int|
                    0 <= x < n ==> #[trigger] matrix.spec_weight(k as int, x)
                        == pass0.spec_weight(k as int, x) && matrix.spec_weight(x, k as int)
                        == pass0.spec_weight(x, k as int),
                forall|x: int, y: int|
                    #![trigger matrix.spec_weight(x, y)]
                    0 <= x < n && 0 <= y < n ==> matrix.spec_weight(x, y) <= pass0.spec_weight(
                        x,
                        y,
                    ),
                forall|x: int, y: int|
                    #![trigger matrix.spec_weight(x, y)]
                    0 <= x < i && 0 <= y < n ==> matrix.spec_weight(x, y) <= spec_sat_add(
                        pass0.spec_weight(x, k as int),
                        pass0.spec_weight(k as int, y),
                    ),
                forall|x: int, y: int|
                    0 <= x < n && 0 <= y < n ==> #[trigger] spec_realized(m0, *matrix, x, y),
            decreases n - i,
        {
            let mut j: usize = 0;
            while j < n
                invariant
                    matrix.wf(),
                    matrix.size == m0.size,
                    m0.wf(),
                    n == matrix.size,
                    k < n,
                    i < n,
                    j <= n,
                    pass0.size == n,
                    pass0.wf(),
                    forall|q: int|
                        #![trigger matrix.spec_weight(q, q)]
                        0 <= q < n ==> matrix.spec_weight(q, q) == 0,
                    forall|x: int|
                        0 <= x < n ==> #[trigger] matrix.spec_weight(k as int, x)
                            == pass0.spec_weight(k as int, x) && matrix.spec_weight(x, k as int)
                            == pass0.spec_weight(x, k as int),
                    forall|x: int, y: int|
                        #![trigger matrix.spec_weight(x, y)]
                        0 <= x < n && 0 <= y < n ==> matrix.spec_weight(x, y)
                            <= pass0.spec_weight(x, y),
                    forall|x: int, y: int|
                        #![trigger matrix.spec_weight(x, y)]
                        0 <= x < i && 0 <= y < n ==> matrix.spec_weight(x, y) <= spec_sat_add(
                            pass0.spec_weight(x, k as int),
                            pass0.spec_weight(k as int, y),
                        ),
                    forall|y: int|
                        #![trigger matrix.spec_weight(i as int, y)]
                        0 <= y < j ==> matrix.spec_weight(i as int, y) <= spec_sat_add(
                            pass0.spec_weight(i as int, k as int),
                            pass0.spec_weight(k as int, y),
                        ),
                    forall|x: int, y: int|
                        0 <= x < n && 0 <= y < n ==> #[trigger] spec_realized(m0, *matrix, x, y),
                decreases n - j,
            {
                let ik = matrix.weight_at(i, k);
                let kj = matrix.weight_at(k, j);
                let sum = if kj > u64::MAX - ik {
                    u64::MAX
                } else {
                    ik + kj
                };
                let ij = matrix.weight_at(i, j);
                let ghost before = *matrix;
                proof {
                    assert(matrix.spec_weight(k as int, i as int) == pass0.spec_weight(
                        k as int,
                        i as int,
                    ) && matrix.spec_weight(i as int, k as int) == pass0.spec_weight(
                        i as int,
                        k as int,
                    ));
                    assert(matrix.spec_weight(k as int, j as int) == pass0.spec_weight(
                        k as int,
                        j as int,
                    ));
                    assert(ik == pass0.spec_weight(i as int, k as int));
                    assert(kj == pass0.spec_weight(k as int, j as int));
                }
                if sum < ij {
                    proof {
                        if i == k {
                            assert(ik == 0);
                            assert(false);
                        }
                        if j == k {
                            assert(kj == 0);
                            assert(false);
                        }
                        if i == j {
                            assert(ij == 0);
                            assert(false);
                        }
                    }
                    matrix.set_weight_at(i, j, sum);
                    proof {
                        lemma_weight_update_pair(matrix, &before, i as int, j as int, sum);
                        assert forall|q: int| 0 <= q < n implies #[trigger] matrix.spec_weight(
                            q,
                            q,
                        ) == 0 by {
                            assert(matrix.spec_weight(q, q) == before.spec_weight(q, q));
                        }
                        assert forall|x: int|
                            0 <= x < n implies #[trigger] matrix.spec_weight(k as int, x)
                            == pass0.spec_weight(k as int, x) && matrix.spec_weight(x, k as int)
                            == pass0.spec_weight(x, k as int) by {
                            assert(matrix.spec_weight(k as int, x) == before.spec_weight(
                                k as int,
                                x,
                            ));
                            assert(matrix.spec_weight(x, k as int) == before.spec_weight(
                                x,
                                k as int,
                            ));
                        }
                        assert forall|x: int, y: int|
                            0 <= x < n && 0 <= y < n implies #[trigger] matrix.spec_weight(x, y)
                            <= pass0.spec_weight(x, y) by {
                            if !(x == i && y == j) {
                                assert(matrix.spec_weight(x, y) == before.spec_weight(x, y));
                            }
                        }
                        assert forall|x: int, y: int|
                            0 <= x < i && 0 <= y < n implies #[trigger] matrix.spec_weight(x, y)
                            <= spec_sat_add(
                            pass0.spec_weight(x, k as int),
                            pass0.spec_weight(k as int, y),
                        ) by {
                            assert(matrix.spec_weight(x, y) == before.spec_weight(x, y));
                        }
                        assert forall|y: int|
                            0 <= y < j implies #[trigger] matrix.spec_weight(i as int, y)
                            <= spec_sat_add(
                            pass0.spec_weight(i as int, k as int),
                            pass0.spec_weight(k as int, y),
                        ) by {
                            assert(matrix.spec_weight(i as int, y) == before.spec_weight(
                                i as int,
                                y,
                            ));
                        }
                        assert(spec_realized(m0, before, i as int, k as int));
                        assert(spec_realized(m0, before, k as int, j as int));
                        let p1 = choose|p: Seq<usize>|
                            spec_is_path(&m0, p, i as int, k as int) && before.spec_weight(
                                i as int,
                                k as int,
                            ) == spec_path_weight(&m0, p);
                        let p2 = choose|p: Seq<usize>|
                            spec_is_path(&m0, p, k as int, j as int) && before.spec_weight(
                                k as int,
                                j as int,
                            ) == spec_path_weight(&m0, p);
                        lemma_join_paths(&m0, p1, p2, i as int, k as int, j as int);
                        let pw = p1 + p2.drop_first();
                        assert(matrix.spec_weight(i as int, j as int) == spec_path_weight(
                            &m0,
                            pw,
                        ));
                        assert forall|x: int, y: int|
                            0 <= x < n && 0 <= y < n implies #[trigger] spec_realized(
                            m0,
                            *matrix,
                            x,
                            y,
                        ) by {
                            if x == i && y == j {
                                assert(spec_is_path(&m0, pw, x, y) && matrix.spec_weight(x, y)
                                    == spec_path_weight(&m0, pw));
                            } else {
                                assert(matrix.spec_weight(x, y) == before.spec_weight(x, y));
                                assert(spec_realized(m0, before, x, y));
                                let pv = choose|p: Seq<usize>|
                                    spec_is_path(&m0, p, x, y) && before.spec_weight(x, y)
                                        == spec_path_weight(&m0, p);
                                assert(spec_is_path(&m0, pv, x, y) && matrix.spec_weight(x, y)
                                    == spec_path_weight(&m0, pv));
                            }
                        }
                    }
                }
                proof {
                    assert(sum == spec_sat_add(ik, kj));
                    assert(matrix.spec_weight(i as int, j as int) <= spec_sat_add(
                        pass0.spec_weight(i as int, k as int),
                        pass0.spec_weight(k as int, j as int),
                    ));
                }
                j = j + 1;
            }
            i = i + 1;
        }
        proof {
            assert forall|p: Seq<usize>, f: int, t: int|
                #![trigger spec_is_path(&m0, p, f, t)]
                spec_is_path(&m0, p, f, t) && spec_intermediates_below(
                    p,
                    k + 1,
                ) implies matrix.spec_weight(f, t) <= spec_path_weight(&m0, p) by {
                lemma_paths_through_k(&m0, &pass0, matrix, k as int, p, f, t);
            }
        }
        k = k + 1;
    }

    proof {
        assert forall|p: Seq<usize>, f: int, t: int|
            #![trigger spec_is_path(&m0, p, f, t)]
            spec_is_path(&m0, p, f, t) implies matrix.spec_weight(f, t) <= spec_path_weight(
            &m0,
            p,
        ) by {
            assert(spec_intermediates_below(p, n as int));
        }
        assert forall|f: int, t: int|
            m0.spec_in_bounds(f, t) implies #[trigger] matrix.spec_weight(f, t) <= spec_zero_diag(
            &m0,
            f,
            t,
        ) by {
            if f == t {
                assert(matrix.spec_weight(f, f) == 0);
            } else {
                let pd = seq![f as usize, t as usize];
                assert(spec_is_path(&m0, pd, f, t));
                lemma_edge_path_weight(&m0, f, t);
            }
        }
        assert forall|f: int, t: int, k0: int|
            m0.spec_in_bounds(f, t) && 0 <= k0 < n implies matrix.spec_weight(f, t)
            <= #[trigger] spec_sat_add(
            spec_zero_diag(&m0, f, k0),
            spec_zero_diag(&m0, k0, t),
        ) by {
            let pk = seq![f as usize, k0 as usize, t as usize];
            assert(spec_is_path(&m0, pk, f, t));
            assert(pk.drop_last() =~= seq![f as usize, k0 as usize]);
            lemma_edge_path_weight(&m0, f, k0);
            assert(pk[pk.len() - 2] == k0 as usize && pk[pk.len() - 1] == t as usize);
            assert(spec_path_weight(&m0, pk) == spec_sat_add(
                spec_zero_diag(&m0, f, k0),
                spec_zero_diag(&m0, k0, t),
            ));
        }
        assert forall|f: int, t: int, k0: int|
            m0.spec_in_bounds(f, t) && 0 <= k0 < n implies matrix.spec_weight(f, t)
            <= #[trigger] spec_sat_add(
            matrix.spec_weight(f, k0),
            matrix.spec_weight(k0, t),
        ) by {
            assert(spec_realized(m0, *matrix, f, k0));
            assert(spec_realized(m0, *matrix, k0, t));
            let p1 = choose|p: Seq<usize>|
                spec_is_path(&m0, p, f, k0) && matrix.spec_weight(f, k0) == spec_path_weight(
                    &m0,
                    p,
                );
            let p2 = choose|p: Seq<usize>|
                spec_is_path(&m0, p, k0, t) && matrix.spec_weight(k0, t) == spec_path_weight(
                    &m0,
                    p,
                );
            lemma_join_paths(&m0, p1, p2, f, k0, t);
            let pw = p1 + p2.drop_first();
            assert(spec_is_path(&m0, pw, f, t));
        }
    }
}

/// After one entry write, every other entry reads as before and the
/// written pair reads the written weight.
proof fn lemma_weight_update_pair(
    m: &AdjacencyMatrix<u64>,
    base: &AdjacencyMatrix<u64>,
    i: int,
    j: int,
    w: u64,
)
    requires
        m.wf(),
        base.wf(),
        m.size == base.size,
        0 <= i < m.size,
        0 <= j < m.size,
        m.weights@ == base.weights@.update(i * base.size + j, w),
    ensures
        m.spec_weight(i, j) == w,
        forall|f: int, t: int|
            m.spec_in_bounds(f, t) && !(f == i && t == j) ==> m.spec_weight(f, t)
                == #[trigger] base.spec_weight(f, t),
{
    lemma_pairs_distinct(m.size as int, i, j, i, j);
    assert forall|f: int, t: int|
        m.spec_in_bounds(f, t) && !(f == i && t == j) implies m.spec_weight(f, t)
        == #[trigger] base.spec_weight(f, t) by {
        lemma_pairs_distinct(m.size as int, f, t, i, j);
        let idx = f * (m.size as int) + t;
        let wi = i * (m.size as int) + j;
        assert(idx != wi);
        assert(0 <= idx < base.weights@.len());
        assert(m.weights@[idx] == base.weights@[idx]);
    }
}

/// Two in-range pairs share a flat index only when they are the same pair,
/// and every in-range pair's flat index is in range.
proof fn lemma_pairs_distinct(size: int, f1: int, t1: int, f2: int, t2: int)
    requires
        0 <= f1 < size,
        0 <= t1 < size,
        0 <= f2 < size,
        0 <= t2 < size,
    ensures
        (f1 * size + t1 == f2 * size + t2) == (f1 == f2 && t1 == t2),
        0 <= f1 * size + t1 < size * size,
{
    assert((f1 * size + t1 == f2 * size + t2) == (f1 == f2 && t1 == t2) && 0 <= f1 * size + t1
        < size * size) by (nonlinear_arith)
        requires
            0 <= f1 < size,
            0 <= t1 < size,
            0 <= f2 < size,
            0 <= t2 < size,
    ;
}

} // verus!
