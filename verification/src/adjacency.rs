use crate::spatial::first_occurrences;
use std::collections::HashMap;
use vstd::prelude::*;

verus! {

broadcast use vstd::std_specs::hash::group_hash_axioms;

/// Positions `i` and `j` of triangle `t` of the index buffer `ix` are distinct
/// and hold the vertices `v` and `u`.
pub open spec fn tri_pair(ix: Seq<i32>, t: int, i: int, j: int, v: usize, u: usize) -> bool {
    &&& 0 <= i < 3
    &&& 0 <= j < 3
    &&& i != j
    &&& ix[3 * t + i] as usize == v
    &&& ix[3 * t + j] as usize == u
}

/// `u` is a neighbour of `v` through one of the first `tris` triangles.
pub open spec fn adjacent_within(ix: Seq<i32>, tris: int, v: usize, u: usize) -> bool {
    exists|t: int, i: int, j: int| 0 <= t < tris && #[trigger] tri_pair(ix, t, i, j, v, u)
}

/// `u` is a neighbour of `v`: some whole triangle of `ix` holds both at two
/// distinct corners (a trailing partial triangle is ignored).
pub open spec fn adjacent(ix: Seq<i32>, v: usize, u: usize) -> bool {
    adjacent_within(ix, (ix.len() / 3) as int, v, u)
}

/// The map has exactly the keys `0..n`, no list repeats a vertex, and the
/// list of each key holds exactly its neighbours through the first `tris`
/// triangles.
pub open spec fn adjacency_upto(
    m: Map<usize, Vec<usize>>,
    n: usize,
    ix: Seq<i32>,
    tris: int,
) -> bool {
    &&& forall|v: usize| m.contains_key(v) <==> v < n
    &&& forall|v: usize| v < n ==> (#[trigger] m[v])@.no_duplicates()
    &&& forall|v: usize, u: usize|
        v < n ==> (#[trigger] m[v]@.contains(u) <==> adjacent_within(ix, tris, v, u))
}

/// Whether `x` occurs in `v`.
fn contains_vertex(v: &Vec<usize>, x: usize) -> (r: bool)
    ensures
        r == v@.contains(x),
{
    let mut k: usize = 0;
    while k < v.len()
        invariant
            k <= v@.len(),
            forall|i: int| 0 <= i < k ==> v@[i] != x,
        decreases v@.len() - k,
    {
        if v[k] == x {
            return true;
        }
        k = k + 1;
    }
    false
}

/// Records `neighbor` as a neighbour of `vertex`, unless it is recorded
/// already; a vertex without an entry is left alone.
pub fn add_neighbor(adjacency: &mut HashMap<usize, Vec<usize>>, vertex: usize, neighbor: usize)
    ensures
        forall|k: usize| final(adjacency)@.contains_key(k) <==> old(adjacency)@.contains_key(k),
        forall|k: usize|
            k != vertex && old(adjacency)@.contains_key(k) ==> final(adjacency)@[k]
                == old(adjacency)@[k],
        old(adjacency)@.contains_key(vertex) ==> final(adjacency)@[vertex]@ == (if old(
            adjacency,
        )@[vertex]@.contains(neighbor) {
            old(adjacency)@[vertex]@
        } else {
            old(adjacency)@[vertex]@.push(neighbor)
        }),
{
    let removed = adjacency.remove(&vertex);
    match removed {
        Some(mut neighbors) => {
            if !contains_vertex(&neighbors, neighbor) {
                neighbors.push(neighbor);
            }
            adjacency.insert(vertex, neighbors);
        },
        None => {},
    }
}

/// The neighbour relation of one triangle with corners `a`, `b`, `c`.
pub open spec fn tri_has(a: usize, b: usize, c: usize, v: usize, u: usize) -> bool {
    ||| v == a && (u == b || u == c)
    ||| v == b && (u == a || u == c)
    ||| v == c && (u == a || u == b)
}

/// `[y]` when `p` holds, else nothing.
pub open spec fn cond(p: bool, y: usize) -> Seq<usize> {
    if p {
        seq![y]
    } else {
        Seq::empty()
    }
}

/// The neighbours that triangle `a b c` contributes to vertex `v`, in the
/// order the pairs `(a,b) (a,c) (b,a) (b,c) (c,a) (c,b)` are recorded.
pub open spec fn tri_neighbors(a: usize, b: usize, c: usize, v: usize) -> Seq<usize> {
    cond(v == a, b) + cond(v == a, c) + cond(v == b, a) + cond(v == b, c) + cond(v == c, a) + cond(
        v == c,
        b,
    )
}

/// Every neighbour of `v` met in the first `tris` triangles, repeats
/// included, in the order they are met.
pub open spec fn neighbor_seq(ix: Seq<i32>, tris: int, v: usize) -> Seq<usize>
    decreases tris,
{
    if tris <= 0 {
        Seq::empty()
    } else {
        let t = tris - 1;
        neighbor_seq(ix, t, v) + tri_neighbors(
            ix[3 * t] as usize,
            ix[3 * t + 1] as usize,
            ix[3 * t + 2] as usize,
            v,
        )
    }
}

/// Adds the six ordered neighbour pairs of one triangle.
fn link_triangle(
    adjacency: &mut HashMap<usize, Vec<usize>>,
    n: usize,
    a: usize,
    b: usize,
    c: usize,
    Ghost(pre): Ghost<spec_fn(usize) -> Seq<usize>>,
)
    requires
        forall|v: usize| old(adjacency)@.contains_key(v) <==> v < n,
        forall|v: usize| v < n ==> (#[trigger] old(adjacency)@[v])@.no_duplicates(),
        forall|v: usize| v < n ==> (#[trigger] old(adjacency)@[v])@ == first_occurrences(pre(v)),
    ensures
        forall|v: usize|
            v < n ==> (#[trigger] final(adjacency)@[v])@ == first_occurrences(
                pre(v) + tri_neighbors(a, b, c, v),
            ),
        forall|v: usize| final(adjacency)@.contains_key(v) <==> v < n,
        forall|v: usize| v < n ==> (#[trigger] final(adjacency)@[v])@.no_duplicates(),
        forall|v: usize, u: usize|
            v < n ==> (#[trigger] final(adjacency)@[v]@.contains(u) <==> (old(
                adjacency,
            )@[v]@.contains(u) || tri_has(a, b, c, v, u))),
{
    let ghost p0 = pre;
    let ghost p1 = |v: usize| p0(v) + cond(v == a, b);
    let ghost p2 = |v: usize| p1(v) + cond(v == a, c);
    let ghost p3 = |v: usize| p2(v) + cond(v == b, a);
    let ghost p4 = |v: usize| p3(v) + cond(v == b, c);
    let ghost p5 = |v: usize| p4(v) + cond(v == c, a);
    let ghost p6 = |v: usize| p5(v) + cond(v == c, b);
    let ghost m0 = adjacency@;
    add_neighbor(adjacency, a, b);
    proof { lemma_step(m0, adjacency@, n, a, b, p0); }
    let ghost m1 = adjacency@;
    add_neighbor(adjacency, a, c);
    proof { lemma_step(m1, adjacency@, n, a, c, p1); }
    let ghost m2 = adjacency@;
    add_neighbor(adjacency, b, a);
    proof { lemma_step(m2, adjacency@, n, b, a, p2); }
    let ghost m3 = adjacency@;
    add_neighbor(adjacency, b, c);
    proof { lemma_step(m3, adjacency@, n, b, c, p3); }
    let ghost m4 = adjacency@;
    add_neighbor(adjacency, c, a);
    proof { lemma_step(m4, adjacency@, n, c, a, p4); }
    let ghost m5 = adjacency@;
    add_neighbor(adjacency, c, b);
    proof {
        lemma_step(m5, adjacency@, n, c, b, p5);
        assert forall|v: usize| v < n implies (#[trigger] adjacency@[v])@ == first_occurrences(
            pre(v) + tri_neighbors(a, b, c, v),
        ) by {
            assert(p6(v) =~= pre(v) + tri_neighbors(a, b, c, v));
        }
    }
}

/// What one `add_neighbor` call does to the lists, stated per key.
proof fn lemma_step(
    m0: Map<usize, Vec<usize>>,
    m1: Map<usize, Vec<usize>>,
    n: usize,
    x: usize,
    y: usize,
    pre: spec_fn(usize) -> Seq<usize>,
)
    requires
        forall|v: usize| v < n ==> (#[trigger] m0[v])@ == first_occurrences(pre(v)),
        forall|v: usize| m0.contains_key(v) <==> v < n,
        forall|v: usize| v < n ==> (#[trigger] m0[v])@.no_duplicates(),
        forall|k: usize| m1.contains_key(k) <==> m0.contains_key(k),
        forall|k: usize| k != x && m0.contains_key(k) ==> m1[k] == m0[k],
        m0.contains_key(x) ==> m1[x]@ == (if m0[x]@.contains(y) {
            m0[x]@
        } else {
            m0[x]@.push(y)
        }),
    ensures
        forall|v: usize| v < n ==> (#[trigger] m1[v])@ == first_occurrences(pre(v) + cond(v == x, y)),
        forall|v: usize| m1.contains_key(v) <==> v < n,
        forall|v: usize| v < n ==> (#[trigger] m1[v])@.no_duplicates(),
        forall|v: usize, u: usize|
            v < n ==> (#[trigger] m1[v]@.contains(u) <==> (m0[v]@.contains(u) || (v == x && u
                == y))),
{
    assert forall|v: usize| v < n implies (#[trigger] m1[v])@ == first_occurrences(pre(v) + cond(v == x, y)) by {
        if v == x {
            let t = pre(v) + cond(v == x, y);
            assert(t =~= pre(v).push(y));
            assert(t.drop_last() =~= pre(v));
        } else {
            assert(pre(v) + cond(v == x, y) =~= pre(v));
        }
    }
    assert forall|v: usize| v < n implies (#[trigger] m1[v])@.no_duplicates() by {
        if v == x && !m0[x]@.contains(y) {
            let s = m0[x]@;
            let t = s.push(y);
            assert forall|i: int, j: int| 0 <= i < t.len() && 0 <= j < t.len() && i != j implies t[i] != t[j] by {
                if i == s.len() as int {
                    assert(s[j] == t[j]);
                } else if j == s.len() as int {
                    assert(s[i] == t[i]);
                } else {
                    assert(s[i] == t[i] && s[j] == t[j]);
                }
            }
        }
    }
    assert forall|v: usize, u: usize| v < n implies (#[trigger] m1[v]@.contains(u) <==> (
    m0[v]@.contains(u) || (v == x && u == y))) by {
        if v == x && !m0[x]@.contains(y) {
            let s = m0[x]@;
            if s.push(y).contains(u) {
                let i = choose|i: int| 0 <= i < s.push(y).len() && s.push(y)[i] == u;
                if i < s.len() {
                    assert(s[i] == u);
                }
            }
            if s.contains(u) {
                let i = choose|i: int| 0 <= i < s.len() && s[i] == u;
                assert(s.push(y)[i] == u);
            }
            if u == y {
                assert(s.push(y)[s.len() as int] == y);
            }
        }
    }
}

/// Builds, for every vertex `0..vertex_count`, the list of the vertices it
/// shares an edge with in some triangle of `indices`.
pub fn build_adjacency_map(vertex_count: usize, indices: &[i32]) -> (adjacency: HashMap<
    usize,
    Vec<usize>,
>)
    ensures
        forall|v: usize| adjacency@.contains_key(v) <==> v < vertex_count,
        forall|v: usize|
            v < vertex_count ==> (#[trigger] adjacency@[v])@ == first_occurrences(
                neighbor_seq(indices@, (indices@.len() / 3) as int, v),
            ),
        forall|v: usize| v < vertex_count ==> (#[trigger] adjacency@[v])@.no_duplicates(),
        forall|v: usize, u: usize|
            v < vertex_count ==> (#[trigger] adjacency@[v]@.contains(u) <==> adjacent(
                indices@,
                v,
                u,
            )),
{
    let mut adjacency: HashMap<usize, Vec<usize>> = HashMap::with_capacity(vertex_count);
    let mut i: usize = 0;
    while i < vertex_count
        invariant
            i <= vertex_count,
            forall|v: usize| adjacency@.contains_key(v) <==> v < i,
            forall|v: usize| v < i ==> (#[trigger] adjacency@[v])@.len() == 0,
        decreases vertex_count - i,
    {
        adjacency.insert(i, Vec::new());
        i = i + 1;
    }
    let ghost ix = indices@;
    let tris = indices.len() / 3;
    let mut t: usize = 0;
    while t < tris
        invariant
            ix == indices@,
            tris == ix.len() / 3,
            t <= tris,
            adjacency_upto(adjacency@, vertex_count, ix, t as int),
            forall|v: usize|
                v < vertex_count ==> (#[trigger] adjacency@[v])@ == first_occurrences(
                    neighbor_seq(ix, t as int, v),
                ),
        decreases tris - t,
    {
        proof {
            let len = ix.len() as int;
            assert(len == indices.len());
            assert(3 * t + 3 <= len) by (nonlinear_arith)
                requires
                    t < tris,
                    tris == len / 3,
                    len >= 0,
            ;
        }
        let a = indices[3 * t] as usize;
        let b = indices[3 * t + 1] as usize;
        let c = indices[3 * t + 2] as usize;
        let ghost m0 = adjacency@;
        let ghost pre = |v: usize| neighbor_seq(ix, t as int, v);
        link_triangle(&mut adjacency, vertex_count, a, b, c, Ghost(pre));
        proof {
            assert forall|v: usize, u: usize| v < vertex_count implies (
            #[trigger] adjacency@[v]@.contains(u) <==> adjacent_within(
                ix,
                t + 1,
                v,
                u,
            )) by {
                if tri_has(a, b, c, v, u) {
                    if v == a && u == b {
                        assert(tri_pair(ix, t as int, 0, 1, v, u));
                    } else if v == a && u == c {
                        assert(tri_pair(ix, t as int, 0, 2, v, u));
                    } else if v == b && u == a {
                        assert(tri_pair(ix, t as int, 1, 0, v, u));
                    } else if v == b && u == c {
                        assert(tri_pair(ix, t as int, 1, 2, v, u));
                    } else if v == c && u == a {
                        assert(tri_pair(ix, t as int, 2, 0, v, u));
                    } else {
                        assert(tri_pair(ix, t as int, 2, 1, v, u));
                    }
                }
                if adjacent_within(ix, t + 1, v, u) {
                    let (t2, i2, j2) = choose|t2: int, i2: int, j2: int|
                        0 <= t2 < t + 1 && #[trigger] tri_pair(ix, t2, i2, j2, v, u);
                    if t2 < t {
                        assert(adjacent_within(ix, t as int, v, u));
                    } else {
                        assert(tri_has(a, b, c, v, u));
                    }
                }
                if adjacent_within(ix, t as int, v, u) {
                    let (t2, i2, j2) = choose|t2: int, i2: int, j2: int|
                        0 <= t2 < t && #[trigger] tri_pair(ix, t2, i2, j2, v, u);
                    assert(tri_pair(ix, t2, i2, j2, v, u));
                }
            }
        }
        t = t + 1;
    }
    adjacency
}

/// Sharing an edge is symmetric: `u` is listed among the neighbours of `v`
/// exactly when `v` is listed among those of `u`.
pub proof fn lemma_adjacency_symmetric(ix: Seq<i32>, v: usize, u: usize)
    ensures
        adjacent(ix, v, u) <==> adjacent(ix, u, v),
{
    if adjacent(ix, v, u) {
        let (t, i, j) = choose|t: int, i: int, j: int|
            0 <= t < ix.len() / 3 && #[trigger] tri_pair(ix, t, i, j, v, u);
        assert(tri_pair(ix, t, j, i, u, v));
    }
    if adjacent(ix, u, v) {
        let (t, i, j) = choose|t: int, i: int, j: int|
            0 <= t < ix.len() / 3 && #[trigger] tri_pair(ix, t, i, j, u, v);
        assert(tri_pair(ix, t, j, i, v, u));
    }
}

} // verus!
