use vstd::prelude::*;

verus! {

/// The index buffer `other` shifted by `offset`.
pub open spec fn offset_seq(other: Seq<i32>, offset: i32) -> Seq<i32> {
    Seq::new(other.len(), |i: int| (other[i] + offset) as i32)
}

/// Every index of `s` lies in `[lo, hi)`.
pub open spec fn indices_within(s: Seq<i32>, lo: int, hi: int) -> bool {
    forall|i: int| 0 <= i < s.len() ==> lo <= #[trigger] s[i] < hi
}

/// Appends the indices of a mesh whose vertices are appended after `offset`
/// existing vertices, shifting each index by `offset`.
pub fn extend_indices(indices: &mut Vec<i32>, other: &[i32], offset: i32)
    requires
        forall|i: int|
            0 <= i < other@.len() ==> i32::MIN <= #[trigger] other@[i] + offset <= i32::MAX,
    ensures
        final(indices)@ == old(indices)@ + offset_seq(other@, offset),
        // the existing indices stay, and each appended one is the other
        // mesh's index moved on by the offset
        final(indices)@.len() == old(indices)@.len() + other@.len(),
        final(indices)@.subrange(0, old(indices)@.len() as int) == old(indices)@,
        forall|i: int|
            0 <= i < other@.len() ==> final(indices)@[old(indices)@.len() + i] == #[trigger] other@[i]
                + offset,
{
    let ghost start = indices@;
    let mut k: usize = 0;
    while k < other.len()
        invariant
            k <= other@.len(),
            forall|i: int|
                0 <= i < other@.len() ==> i32::MIN <= #[trigger] other@[i] + offset <= i32::MAX,
            indices@ == start + offset_seq(other@, offset).take(k as int),
        decreases other@.len() - k,
    {
        let v = other[k] + offset;
        indices.push(v);
        k = k + 1;
        assert(offset_seq(other@, offset).take(k as int) =~= offset_seq(other@, offset).take(
            (k - 1) as int,
        ).push(v));
    }
    assert(offset_seq(other@, offset).take(k as int) =~= offset_seq(other@, offset));
}

/// Indices that pointed into a mesh of `m` vertices point, once shifted by the
/// `n` vertices already present, into the combined mesh of `n + m` vertices.
pub proof fn lemma_extend_keeps_indices_valid(other: Seq<i32>, n: i32, m: int)
    requires
        0 <= n,
        n + m <= i32::MAX,
        indices_within(other, 0, m),
    ensures
        indices_within(offset_seq(other, n), n as int, n + m),
{
}

/// The two triangles of the quad `v0 v1 v2 v3`, wound `v0 v2 v1` and `v0 v3 v2`.
pub open spec fn quad_seq(v0: usize, v1: usize, v2: usize, v3: usize) -> Seq<i32> {
    seq![v0 as i32, v2 as i32, v1 as i32, v0 as i32, v3 as i32, v2 as i32]
}

/// Appends the quad `v0 v1 v2 v3` as two triangles with outward winding.
pub fn add_quad(indices: &mut Vec<i32>, v0: usize, v1: usize, v2: usize, v3: usize)
    ensures
        final(indices)@ == old(indices)@ + quad_seq(v0, v1, v2, v3),
        // two triangles that share the diagonal from v0 to v2, wound v0 v2 v1
        // and v0 v3 v2
        final(indices)@.len() == old(indices)@.len() + 6,
        final(indices)@.subrange(0, old(indices)@.len() as int) == old(indices)@,
        final(indices)@[old(indices)@.len() as int] == v0 as i32,
        final(indices)@[old(indices)@.len() as int + 1] == v2 as i32,
        final(indices)@[old(indices)@.len() as int + 2] == v1 as i32,
        final(indices)@[old(indices)@.len() as int + 3] == v0 as i32,
        final(indices)@[old(indices)@.len() as int + 4] == v3 as i32,
        final(indices)@[old(indices)@.len() as int + 5] == v2 as i32,
{
    let a = v0 as i32;
    let b = v1 as i32;
    let c = v2 as i32;
    let d = v3 as i32;
    indices.push(a);
    indices.push(c);
    indices.push(b);
    indices.push(a);
    indices.push(d);
    indices.push(c);
    assert(indices@ =~= old(indices)@ + quad_seq(v0, v1, v2, v3));
}

/// The triangle made of the three vertices starting at `base`.
pub open spec fn triangle_seq(base: i32) -> Seq<i32> {
    seq![base, (base + 1) as i32, (base + 2) as i32]
}

/// Appends a triangle over three freshly added vertices starting at `base`.
pub fn add_triangle_indices(indices: &mut Vec<i32>, base: i32)
    requires
        base + 2 <= i32::MAX,
    ensures
        final(indices)@ == old(indices)@ + triangle_seq(base),
        final(indices)@.len() == old(indices)@.len() + 3,
        final(indices)@.subrange(0, old(indices)@.len() as int) == old(indices)@,
        forall|t: int| 0 <= t < 3 ==> #[trigger] final(indices)@[old(indices)@.len() + t] == base + t,
{
    indices.push(base);
    indices.push(base + 1);
    indices.push(base + 2);
    assert(indices@ =~= old(indices)@ + triangle_seq(base));
}

/// A double-sided quad over eight vertices starting at `base`: the front
/// face on the first four, the back face with reversed winding on the next four.
pub open spec fn double_sided_quad_seq(base: int) -> Seq<i32> {
    let b = base;
    let k = base + 4;
    seq![
        b as i32,
        (b + 1) as i32,
        (b + 2) as i32,
        b as i32,
        (b + 2) as i32,
        (b + 3) as i32,
        k as i32,
        (k + 2) as i32,
        (k + 1) as i32,
        k as i32,
        (k + 3) as i32,
        (k + 2) as i32,
    ]
}

/// Appends the twelve indices of a double-sided quad whose eight vertices
/// start at `base`.
pub fn add_double_sided_quad_indices(indices: &mut Vec<i32>, base: i32)
    requires
        base + 7 <= i32::MAX,
    ensures
        final(indices)@ == old(indices)@ + double_sided_quad_seq(base as int),
        final(indices)@.len() == old(indices)@.len() + 12,
        final(indices)@.subrange(0, old(indices)@.len() as int) == old(indices)@,
        // the front face: two triangles over the first four vertices
        final(indices)@.subrange(old(indices)@.len() as int, old(indices)@.len() as int + 6) == seq![
            base,
            (base + 1) as i32,
            (base + 2) as i32,
            base,
            (base + 2) as i32,
            (base + 3) as i32,
        ],
        // the back face: each front triangle on the next four vertices, wound
        // the other way
        final(indices)@[old(indices)@.len() as int + 6] == final(indices)@[old(indices)@.len() as int + 0] + 4,
        final(indices)@[old(indices)@.len() as int + 6 + 1] == final(indices)@[old(indices)@.len() as int + 0 + 2] + 4,
        final(indices)@[old(indices)@.len() as int + 6 + 2] == final(indices)@[old(indices)@.len() as int + 0 + 1] + 4,
        final(indices)@[old(indices)@.len() as int + 9] == final(indices)@[old(indices)@.len() as int + 3] + 4,
        final(indices)@[old(indices)@.len() as int + 9 + 1] == final(indices)@[old(indices)@.len() as int + 3 + 2] + 4,
        final(indices)@[old(indices)@.len() as int + 9 + 2] == final(indices)@[old(indices)@.len() as int + 3 + 1] + 4,
{
    indices.push(base);
    indices.push(base + 1);
    indices.push(base + 2);
    indices.push(base);
    indices.push(base + 2);
    indices.push(base + 3);
    let back = base + 4;
    indices.push(back);
    indices.push(back + 2);
    indices.push(back + 1);
    indices.push(back);
    indices.push(back + 3);
    indices.push(back + 2);
    assert(indices@ =~= old(indices)@ + double_sided_quad_seq(base as int));
}

/// The two triangles joining vertex `seg` of ring `ring` to the next ring,
/// with `vpr` vertices per ring.
pub open spec fn grid_cell_seq(ring: int, seg: int, vpr: int) -> Seq<i32> {
    let current = ring * vpr + seg;
    let next = current + 1;
    let above = (ring + 1) * vpr + seg;
    let above_next = above + 1;
    seq![
        current as i32,
        next as i32,
        above as i32,
        next as i32,
        above_next as i32,
        above as i32,
    ]
}

/// The cells `0..segs` of row `ring`.
pub open spec fn grid_row_seq(ring: int, segs: nat, vpr: int) -> Seq<i32>
    decreases segs,
{
    if segs == 0 {
        Seq::empty()
    } else {
        grid_row_seq(ring, (segs - 1) as nat, vpr) + grid_cell_seq(ring, segs - 1, vpr)
    }
}

/// The rows `0..rows` of a ring grid with `segments` cells per row.
pub open spec fn grid_seq(rows: nat, segments: nat) -> Seq<i32>
    decreases rows,
{
    if rows == 0 {
        Seq::empty()
    } else {
        grid_seq((rows - 1) as nat, segments) + grid_row_seq(
            rows - 1,
            segments,
            segments + 1 as int,
        )
    }
}

/// Appends the side triangles of a tube of `rings` rings, each ring holding
/// `segments + 1` vertices (the last duplicating the first for the texture seam).
pub fn add_ring_grid(indices: &mut Vec<i32>, rings: usize, segments: usize)
    requires
        1 <= rings,
        rings * (segments + 1) <= usize::MAX,
    ensures
        final(indices)@ == old(indices)@ + grid_seq((rings - 1) as nat, segments as nat),
        // six indices per cell, one row of cells between each pair of
        // neighbouring rings
        final(indices)@.len() == old(indices)@.len() + 6 * ((rings - 1) * segments),
        // cell `g` of row `r` joins vertices `g` and `g + 1` of ring `r` to the
        // same two vertices of ring `r + 1`, one ring (`segments + 1`
        // vertices) further on
        forall|r: int, g: int|
            0 <= r < rings - 1 && 0 <= g < segments ==> {
                let at = old(indices)@.len() + 6 * #[trigger] cell_number(segments as int, r, g);
                let c = r * (segments + 1) + g;
                &&& final(indices)@[at] == c as i32
                &&& final(indices)@[at + 1] == (c + 1) as i32
                &&& final(indices)@[at + 2] == (c + segments + 1) as i32
                &&& final(indices)@[at + 3] == (c + 1) as i32
                &&& final(indices)@[at + 4] == (c + segments + 2) as i32
                &&& final(indices)@[at + 5] == (c + segments + 1) as i32
            },
{
    let ghost start = indices@;
    proof {
        lemma_mul_le(1, rings as int, segments + 1);
    }
    let vpr = segments + 1;
    let mut ring: usize = 0;
    while ring < rings - 1
        invariant
            1 <= rings,
            rings * (segments + 1) <= usize::MAX,
            vpr == segments + 1,
            ring <= rings - 1,
            indices@ == start + grid_seq(ring as nat, segments as nat),
        decreases rings - 1 - ring,
    {
        proof {
            lemma_mul_le(ring as int + 2, rings as int, vpr as int);
        }
        let ghost row_start = indices@;
        let mut seg: usize = 0;
        while seg < segments
            invariant
                1 <= rings,
                rings * (segments + 1) <= usize::MAX,
                vpr == segments + 1,
                ring < rings - 1,
                (ring + 2) * vpr <= usize::MAX,
                seg <= segments,
                indices@ == row_start + grid_row_seq(ring as int, seg as nat, vpr as int),
            decreases segments - seg,
        {
            proof {
                lemma_mul_le(ring as int + 1, ring as int + 2, vpr as int);
                assert((ring + 2) * vpr == (ring + 1) * vpr + vpr) by (nonlinear_arith);
                assert((ring + 1) * vpr == ring * vpr + vpr) by (nonlinear_arith);
            }
            let current = ring * vpr + seg;
            let next = current + 1;
            let above = (ring + 1) * vpr + seg;
            let above_next = above + 1;
            indices.push(current as i32);
            indices.push(next as i32);
            indices.push(above as i32);
            indices.push(next as i32);
            indices.push(above_next as i32);
            indices.push(above as i32);
            seg = seg + 1;
            assert(indices@ =~= row_start + grid_row_seq(ring as int, seg as nat, vpr as int));
        }
        ring = ring + 1;
        assert(indices@ =~= start + grid_seq(ring as nat, segments as nat));
    }
    proof {
        let rows = (rings - 1) as nat;
        let segs = segments as nat;
        lemma_grid_layout(rows, segs);
        let out = indices@;
        assert forall|r: int, g: int| 0 <= r < rings - 1 && 0 <= g < segments implies {
            let at = start.len() + 6 * #[trigger] cell_number(segments as int, r, g);
            let c = r * (segments + 1) + g;
            &&& out[at] == c as i32
            &&& out[at + 1] == (c + 1) as i32
            &&& out[at + 2] == (c + segments + 1) as i32
            &&& out[at + 3] == (c + 1) as i32
            &&& out[at + 4] == (c + segments + 2) as i32
            &&& out[at + 5] == (c + segments + 1) as i32
        } by {
            let vpr = segments + 1;
            let k = cell_number(segments as int, r, g);
            lemma_cell_number_bound(rows, segs, r, g);
            assert((r + 1) * vpr == r * vpr + vpr) by (nonlinear_arith);
            let cell = grid_cell_seq(r, g, vpr as int);
            assert forall|t: int| 0 <= t < 6 implies out[start.len() + 6 * k + t] == cell[t] by {
                assert(grid_seq(rows, segs)[6 * k + t] == cell[t]);
            }
            assert(out[start.len() + 6 * k] == cell[0]);
            assert(out[start.len() + 6 * k + 1] == cell[1]);
            assert(out[start.len() + 6 * k + 2] == cell[2]);
            assert(out[start.len() + 6 * k + 3] == cell[3]);
            assert(out[start.len() + 6 * k + 4] == cell[4]);
            assert(out[start.len() + 6 * k + 5] == cell[5]);
        }
    }
}

/// The position of cell `g` of row `r` among the cells of a ring grid with
/// `segments` cells per row.
pub open spec fn cell_number(segments: int, r: int, g: int) -> int {
    r * segments + g
}

proof fn lemma_cell_number_bound(rows: nat, segs: nat, r: int, g: int)
    requires
        0 <= r < rows,
        0 <= g < segs,
    ensures
        0 <= cell_number(segs as int, r, g) < rows * segs,
        cell_number(segs as int, r, g) + 1 <= rows * segs,
{
    assert(0 <= r * segs + g < rows * segs) by (nonlinear_arith)
        requires
            0 <= r < rows,
            0 <= g < segs,
    ;
}

/// A row holds six indices per cell, cell `g` at offset `6 * g`.
proof fn lemma_row_layout(ring: int, segs: nat, vpr: int)
    ensures
        grid_row_seq(ring, segs, vpr).len() == 6 * segs,
        forall|g: int, t: int|
            0 <= g < segs && 0 <= t < 6 ==> #[trigger] grid_row_seq(ring, segs, vpr)[6 * g + t]
                == grid_cell_seq(ring, g, vpr)[t],
    decreases segs,
{
    if segs > 0 {
        lemma_row_layout(ring, (segs - 1) as nat, vpr);
        let prev = grid_row_seq(ring, (segs - 1) as nat, vpr);
        let cell = grid_cell_seq(ring, segs - 1, vpr);
        assert(grid_row_seq(ring, segs, vpr) == prev + cell);
        assert forall|g: int, t: int| 0 <= g < segs && 0 <= t < 6 implies #[trigger] grid_row_seq(ring, segs, vpr)[6 * g + t]
            == grid_cell_seq(ring, g, vpr)[t] by {
            if g < segs - 1 {
                assert(prev[6 * g + t] == grid_cell_seq(ring, g, vpr)[t]);
            }
        }
    }
}

/// A grid holds its rows one after another, cell `g` of row `r` at offset
/// `6 * (r * segs + g)`.
proof fn lemma_grid_layout(rows: nat, segs: nat)
    ensures
        grid_seq(rows, segs).len() == 6 * (rows * segs),
        forall|r: int, g: int, t: int|
            0 <= r < rows && 0 <= g < segs && 0 <= t < 6 ==> #[trigger] grid_seq(rows, segs)[6
                * cell_number(segs as int, r, g) + t] == grid_cell_seq(r, g, segs + 1 as int)[t],
    decreases rows,
{
    if rows > 0 {
        lemma_grid_layout((rows - 1) as nat, segs);
        let prev = grid_seq((rows - 1) as nat, segs);
        let row = grid_row_seq(rows - 1, segs, segs + 1 as int);
        lemma_row_layout(rows - 1, segs, segs + 1 as int);
        assert(grid_seq(rows, segs) == prev + row);
        assert(rows * segs == (rows - 1) * segs + segs) by (nonlinear_arith);
        assert forall|r: int, g: int, t: int|
            0 <= r < rows && 0 <= g < segs && 0 <= t < 6 implies #[trigger] grid_seq(rows, segs)[6
                * cell_number(segs as int, r, g) + t] == grid_cell_seq(r, g, segs + 1 as int)[t] by {
            if r < rows - 1 {
                lemma_cell_number_bound((rows - 1) as nat, segs, r, g);
                assert(prev[6 * cell_number(segs as int, r, g) + t] == grid_cell_seq(r, g, segs + 1 as int)[t]);
            } else {
                assert(cell_number(segs as int, r, g) == (rows - 1) * segs + g);
                assert(row[6 * g + t] == grid_cell_seq(r, g, segs + 1 as int)[t]);
            }
        }
    } else {
        assert(rows * segs == 0) by (nonlinear_arith)
            requires
                rows == 0,
        ;
    }
}

proof fn lemma_mul_le(a: int, b: int, c: int)
    requires
        0 <= a <= b,
        0 <= c,
    ensures
        a * c <= b * c,
{
    assert(a * c <= b * c) by (nonlinear_arith)
        requires
            0 <= a <= b,
            0 <= c,
    ;
}

/// One fan triangle of a cap: the centre, then the two rim vertices `seg`
/// and `seg + 1` after it, in the order that makes the cap face down or up.
pub open spec fn cap_tri_seq(center: int, seg: int, downward: bool) -> Seq<i32> {
    let current = center + 1 + seg;
    let next = current + 1;
    if downward {
        seq![center as i32, next as i32, current as i32]
    } else {
        seq![center as i32, current as i32, next as i32]
    }
}

/// Where triangle `i` starts among indices that begin at `base`.
pub open spec fn triangle_at(base: int, i: int) -> int {
    base + 3 * i
}

/// A cap holds three indices per rim segment, segment `seg` at offset
/// `3 * seg`.
proof fn lemma_cap_layout(center: int, segs: nat, downward: bool)
    ensures
        cap_seq(center, segs, downward).len() == 3 * segs,
        forall|seg: int, t: int|
            0 <= seg < segs && 0 <= t < 3 ==> #[trigger] cap_seq(center, segs, downward)[3 * seg + t]
                == cap_tri_seq(center, seg, downward)[t],
    decreases segs,
{
    if segs > 0 {
        lemma_cap_layout(center, (segs - 1) as nat, downward);
    }
}

/// The fan triangles `0..segs` of a cap.
pub open spec fn cap_seq(center: int, segs: nat, downward: bool) -> Seq<i32>
    decreases segs,
{
    if segs == 0 {
        Seq::empty()
    } else {
        cap_seq(center, (segs - 1) as nat, downward) + cap_tri_seq(center, segs - 1, downward)
    }
}

/// Appends the triangle fan of a disc cap: the centre vertex at `center`
/// followed by `segments + 1` rim vertices.
pub fn add_cap_fan(indices: &mut Vec<i32>, center: i32, segments: usize, downward: bool)
    requires
        center + 1 + segments <= i32::MAX,
        segments <= i32::MAX,
    ensures
        final(indices)@ == old(indices)@ + cap_seq(center as int, segments as nat, downward),
        // one triangle per rim segment, each from the centre to rim vertices
        // `seg` and `seg + 1` (the rim starts right after the centre), wound
        // to face down or up
        final(indices)@.len() == old(indices)@.len() + 3 * segments,
        forall|seg: int|
            0 <= seg < segments ==> {
                let at = #[trigger] triangle_at(old(indices)@.len() as int, seg);
                let current = center + 1 + seg;
                &&& final(indices)@[at] == center
                &&& final(indices)@[at + 1] == (if downward { current + 1 } else { current }) as i32
                &&& final(indices)@[at + 2] == (if downward { current } else { current + 1 }) as i32
            },
{
    let ghost start = indices@;
    let ring_start = center + 1;
    let mut seg: usize = 0;
    while seg < segments
        invariant
            center + 1 + segments <= i32::MAX,
            segments <= i32::MAX,
            ring_start == center + 1,
            seg <= segments,
            indices@ == start + cap_seq(center as int, seg as nat, downward),
        decreases segments - seg,
    {
        let current = ring_start + seg as i32;
        let next = ring_start + (seg + 1) as i32;
        if downward {
            indices.push(center);
            indices.push(next);
            indices.push(current);
        } else {
            indices.push(center);
            indices.push(current);
            indices.push(next);
        }
        seg = seg + 1;
        assert(indices@ =~= start + cap_seq(center as int, seg as nat, downward));
    }
    proof {
        lemma_cap_layout(center as int, segments as nat, downward);
        let out = indices@;
        assert forall|seg: int| 0 <= seg < segments implies {
            let at = #[trigger] triangle_at(start.len() as int, seg);
            let current = center + 1 + seg;
            &&& out[at] == center
            &&& out[at + 1] == (if downward { current + 1 } else { current }) as i32
            &&& out[at + 2] == (if downward { current } else { current + 1 }) as i32
        } by {
            let tri = cap_tri_seq(center as int, seg, downward);
            assert forall|t: int| 0 <= t < 3 implies out[start.len() + 3 * seg + t] == tri[t] by {
                assert(cap_seq(center as int, segments as nat, downward)[3 * seg + t] == tri[t]);
            }
            assert(out[start.len() + 3 * seg] == tri[0]);
            assert(out[start.len() + 3 * seg + 1] == tri[1]);
            assert(out[start.len() + 3 * seg + 2] == tri[2]);
        }
    }
}

/// Every index of the first `segs` cells of row `ring` addresses one of the
/// two rings it joins.
proof fn lemma_row_within(ring: int, segs: nat, vpr: int, limit: int)
    requires
        0 <= ring,
        segs + 1 <= vpr,
        (ring + 2) * vpr <= limit,
        limit <= i32::MAX,
    ensures
        indices_within(grid_row_seq(ring, segs, vpr), 0, limit),
    decreases segs,
{
    if segs > 0 {
        lemma_row_within(ring, (segs - 1) as nat, vpr, limit);
        let seg = segs - 1;
        assert((ring + 2) * vpr == ring * vpr + 2 * vpr) by (nonlinear_arith);
        assert((ring + 1) * vpr == ring * vpr + vpr) by (nonlinear_arith);
        assert(0 <= ring * vpr) by (nonlinear_arith)
            requires
                0 <= ring,
                0 <= vpr,
        ;
        let a = grid_row_seq(ring, (segs - 1) as nat, vpr);
        let b = grid_cell_seq(ring, seg, vpr);
        assert forall|i: int| 0 <= i < (a + b).len() implies 0 <= #[trigger] (a + b)[i] < limit by {
            if i >= a.len() {
                assert((a + b)[i] == b[i - a.len()]);
            }
        }
    }
}

/// Every index of a ring grid of `rows` rows addresses one of its
/// `(rows + 1) * (segments + 1)` vertices.
pub proof fn lemma_grid_within(rows: nat, segments: nat)
    requires
        (rows + 1) * (segments + 1) <= i32::MAX,
    ensures
        indices_within(grid_seq(rows, segments), 0, ((rows + 1) * (segments + 1)) as int),
    decreases rows,
{
    if rows > 0 {
        let vpr: int = segments + 1int;
        let limit: int = (rows + 1) * vpr;
        assert((rows as int) * vpr <= limit) by (nonlinear_arith)
            requires
                limit == (rows + 1) * vpr,
                0 <= vpr,
        ;
        lemma_grid_within((rows - 1) as nat, segments);
        lemma_row_within(rows - 1, segments, vpr, limit);
        let a = grid_seq((rows - 1) as nat, segments);
        let b = grid_row_seq(rows - 1, segments, vpr);
        assert forall|i: int| 0 <= i < (a + b).len() implies 0 <= #[trigger] (a + b)[i] < limit by {
            if i >= a.len() {
                assert((a + b)[i] == b[i - a.len()]);
            } else {
                assert((a + b)[i] == a[i]);
            }
        }
    }
}

/// Every index of a cap fan addresses its centre or one of the
/// `segments + 1` rim vertices that follow it.
pub proof fn lemma_cap_within(center: int, segments: nat, downward: bool)
    requires
        i32::MIN <= center,
        center + segments + 2 <= i32::MAX,
    ensures
        indices_within(cap_seq(center, segments, downward), center, center + segments + 2),
    decreases segments,
{
    if segments > 0 {
        lemma_cap_within(center, (segments - 1) as nat, downward);
        let a = cap_seq(center, (segments - 1) as nat, downward);
        let b = cap_tri_seq(center, segments - 1, downward);
        assert forall|i: int| 0 <= i < (a + b).len() implies center <= #[trigger] (a + b)[i] < center
            + segments + 2 by {
            if i >= a.len() {
                assert((a + b)[i] == b[i - a.len()]);
            } else {
                assert((a + b)[i] == a[i]);
            }
        }
    }
}

} // verus!
