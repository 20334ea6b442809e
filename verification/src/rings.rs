use crate::indices::{add_quad, quad_seq};
use vstd::prelude::*;

verus! {

/// A range of vertex positions `[min_index, max_index)` on a ring of
/// `radial_n` vertices, where a side branch cuts its hole. A range with
/// `max_index < min_index` wraps past position zero.
#[derive(Clone, Copy, Debug)]
pub struct IndexRange {
    pub min_index: i32,
    pub max_index: i32,
}

/// A ring of `radial_n + 1` consecutive vertices (the last one duplicates
/// the first for the texture seam) starting at `vertex_index`.
#[derive(Clone, Copy, Debug)]
pub struct CircleDesignator {
    pub vertex_index: usize,
    pub uv_index: usize,
    pub radial_n: usize,
}

/// The remainder of `a` divided by `n > 0`, truncated toward zero as
/// integer `%` does: it takes the sign of `a`.
pub open spec fn trunc_rem(a: int, n: int) -> int {
    if a >= 0 {
        a % n
    } else {
        -((-a) % n)
    }
}

/// Position `index` falls in `r`. A wrapping range is tested after turning
/// every position by half a ring, which unwraps it.
pub open spec fn in_index_range(r: IndexRange, index: int, radial_n: int) -> bool {
    let offset = radial_n / 2;
    if r.max_index < r.min_index {
        let i = trunc_rem(index + offset, radial_n);
        let lo = trunc_rem(r.min_index + offset, radial_n);
        let hi = trunc_rem(r.max_index + offset, radial_n);
        lo <= i < hi
    } else {
        r.min_index <= index < r.max_index
    }
}

/// Position `index` falls in some range of `mask`.
pub open spec fn in_mask(mask: Seq<IndexRange>, index: int, radial_n: int) -> bool {
    exists|k: int| 0 <= k < mask.len() && #[trigger] in_index_range(mask[k], index, radial_n)
}

/// A wrapping range of `mask` is tested on a ring of positive size, and
/// turning its ends, and every position up to `top`, by half a ring stays
/// within `i32`.
pub open spec fn mask_fits(mask: Seq<IndexRange>, top: int, radial_n: int) -> bool {
    forall|k: int|
        0 <= k < mask.len() && (#[trigger] mask[k]).max_index < mask[k].min_index ==> {
            &&& radial_n > 0
            &&& top + radial_n / 2 <= i32::MAX
            &&& mask[k].min_index + radial_n / 2 <= i32::MAX
            &&& mask[k].max_index + radial_n / 2 <= i32::MAX
        }
}

/// Whether ring position `index` lies inside the hole of some side branch.
pub fn is_index_in_branch_mask(mask: &[IndexRange], index: i32, radial_n: i32) -> (r: bool)
    requires
        mask_fits(mask@, index as int, radial_n as int),
    ensures
        r == in_mask(mask@, index as int, radial_n as int),
        // the position is masked exactly when some range of the mask, at any
        // place in the list, holds it
        r <==> exists|k: int|
            0 <= k < mask@.len() && if (#[trigger] mask@[k]).max_index < mask@[k].min_index {
                trunc_rem(mask@[k].min_index + radial_n / 2, radial_n as int) <= trunc_rem(
                    index + radial_n / 2,
                    radial_n as int,
                ) < trunc_rem(mask@[k].max_index + radial_n / 2, radial_n as int)
            } else {
                mask@[k].min_index <= index < mask@[k].max_index
            },
        forall|k: int|
            0 <= k < mask@.len() && (#[trigger] mask@[k]).min_index <= index < mask@[k].max_index ==> r,
{
    let offset = radial_n / 2;
    let mut k: usize = 0;
    while k < mask.len()
        invariant
            radial_n > 0 ==> offset == radial_n / 2,
            mask_fits(mask@, index as int, radial_n as int),
            k <= mask@.len(),
            forall|j: int| 0 <= j < k ==> !in_index_range(#[trigger] mask@[j], index as int, radial_n as int),
        decreases mask@.len() - k,
    {
        let range = mask[k];
        let mut i = index;
        let mut min_idx = range.min_index;
        let mut max_idx = range.max_index;
        if max_idx < min_idx {
            proof {
                assert(mask@[k as int].max_index < mask@[k as int].min_index);
            }
            i = (i + offset) % radial_n;
            min_idx = (min_idx + offset) % radial_n;
            max_idx = (max_idx + offset) % radial_n;
        }
        if i >= min_idx && i < max_idx {
            proof {
                assert(in_index_range(mask@[k as int], index as int, radial_n as int));
            }
            return true;
        }
        k = k + 1;
    }
    false
}

/// Whether ring position `i` is skipped when bridging: it lies in the mask.
pub open spec fn skipped(mask: Option<Seq<IndexRange>>, i: int, radial_n: int) -> bool {
    match mask {
        Some(m) => in_mask(m, i, radial_n),
        None => false,
    }
}

/// The quads joining positions `0..count` of ring `first` to ring `second`,
/// leaving out the masked positions.
pub open spec fn bridge_seq(
    first: usize,
    second: usize,
    count: nat,
    radial_n: int,
    mask: Option<Seq<IndexRange>>,
) -> Seq<i32>
    decreases count,
{
    if count == 0 {
        Seq::empty()
    } else {
        let i = count - 1;
        bridge_seq(first, second, (count - 1) as nat, radial_n, mask) + if skipped(mask, i, radial_n) {
            Seq::empty()
        } else {
            quad_seq(
                (first + i) as usize,
                (first + i + 1) as usize,
                (second + i + 1) as usize,
                (second + i) as usize,
            )
        }
    }
}

/// The view of an optional mask.
pub open spec fn mask_view(mask: Option<&[IndexRange]>) -> Option<Seq<IndexRange>> {
    match mask {
        Some(m) => Some(m@),
        None => None,
    }
}

/// Connects two vertex rings with one quad per position, skipping the
/// positions where a side branch attaches.
pub fn bridge_circles(
    first: &CircleDesignator,
    second: &CircleDesignator,
    radial_n: usize,
    indices: &mut Vec<i32>,
    mask: Option<&[IndexRange]>,
)
    requires
        first.vertex_index + radial_n <= usize::MAX,
        second.vertex_index + radial_n <= usize::MAX,
        radial_n <= i32::MAX,
        radial_n > 0 ==> (mask matches Some(m) ==> mask_fits(m@, radial_n - 1, radial_n as int)),
    ensures
        final(indices)@ == old(indices)@ + bridge_seq(
            first.vertex_index,
            second.vertex_index,
            radial_n as nat,
            radial_n as int,
            mask_view(mask),
        ),
        // with no side branches, position `i` gets the quad joining vertices
        // `i` and `i + 1` of the first ring to the same two of the second
        mask is None ==> final(indices)@.len() == old(indices)@.len() + 6 * radial_n,
        mask is None ==> forall|i: int|
            0 <= i < radial_n ==> {
                let at = #[trigger] quad_at(old(indices)@.len() as int, i);
                let a = first.vertex_index + i;
                let b = second.vertex_index + i;
                &&& final(indices)@[at] == a as i32
                &&& final(indices)@[at + 1] == (b + 1) as i32
                &&& final(indices)@[at + 2] == (a + 1) as i32
                &&& final(indices)@[at + 3] == a as i32
                &&& final(indices)@[at + 4] == b as i32
                &&& final(indices)@[at + 5] == (b + 1) as i32
            },
{
    let ghost start = indices@;
    let mut i: usize = 0;
    while i < radial_n
        invariant
            first.vertex_index + radial_n <= usize::MAX,
            second.vertex_index + radial_n <= usize::MAX,
            radial_n <= i32::MAX,
            radial_n > 0 ==> (mask matches Some(m) ==> mask_fits(m@, radial_n - 1, radial_n as int)),
            i <= radial_n,
            indices@ == start + bridge_seq(
                first.vertex_index,
                second.vertex_index,
                i as nat,
                radial_n as int,
                mask_view(mask),
            ),
        decreases radial_n - i,
    {
        let masked = match mask {
            Some(m) => {
                proof {
                    assert forall|k: int|
                        0 <= k < m@.len() && (#[trigger] m@[k]).max_index < m@[k].min_index implies {
                            &&& (radial_n as i32) > 0
                            &&& i + radial_n / 2 <= i32::MAX
                            &&& m@[k].min_index + radial_n / 2 <= i32::MAX
                            &&& m@[k].max_index + radial_n / 2 <= i32::MAX
                        } by {}
                }
                is_index_in_branch_mask(m, i as i32, radial_n as i32)
            },
            None => false,
        };
        if !masked {
            let v0 = first.vertex_index + i;
            let v1 = first.vertex_index + i + 1;
            let v2 = second.vertex_index + i + 1;
            let v3 = second.vertex_index + i;
            add_quad(indices, v0, v1, v2, v3);
        }
        i = i + 1;
        assert(indices@ =~= start + bridge_seq(
            first.vertex_index,
            second.vertex_index,
            i as nat,
            radial_n as int,
            mask_view(mask),
        ));
    }
    proof {
        if mask is None {
            lemma_open_bridge_layout(first.vertex_index, second.vertex_index, radial_n as nat, radial_n as int);
            let out = indices@;
            assert forall|i: int| 0 <= i < radial_n implies {
                let at = #[trigger] quad_at(start.len() as int, i);
                let a = first.vertex_index + i;
                let b = second.vertex_index + i;
                &&& out[at] == a as i32
                &&& out[at + 1] == (b + 1) as i32
                &&& out[at + 2] == (a + 1) as i32
                &&& out[at + 3] == a as i32
                &&& out[at + 4] == b as i32
                &&& out[at + 5] == (b + 1) as i32
            } by {
                let q = quad_seq(
                    (first.vertex_index + i) as usize,
                    (first.vertex_index + i + 1) as usize,
                    (second.vertex_index + i + 1) as usize,
                    (second.vertex_index + i) as usize,
                );
                assert forall|t: int| 0 <= t < 6 implies out[start.len() + 6 * i + t] == q[t] by {
                    assert(bridge_seq(first.vertex_index, second.vertex_index, radial_n as nat, radial_n as int, None)[6 * i + t] == q[t]);
                }
                assert(out[start.len() + 6 * i] == q[0]);
                assert(out[start.len() + 6 * i + 1] == q[1]);
                assert(out[start.len() + 6 * i + 2] == q[2]);
                assert(out[start.len() + 6 * i + 3] == q[3]);
                assert(out[start.len() + 6 * i + 4] == q[4]);
                assert(out[start.len() + 6 * i + 5] == q[5]);
            }
        }
    }
}

/// Entry `j` of the junction polygon of a child ring of `child_n` vertices
/// whose hole starts at `min_index` on a parent ring: the first half walks
/// the parent ring's lower vertices from the hole's start, the second half
/// comes back along the vertices one ring above, and an odd middle entry
/// stays zero.
pub open spec fn child_index_at(
    parent: CircleDesignator,
    child_n: int,
    min_index: int,
    j: int,
) -> usize {
    let half = child_n / 2;
    let stride = parent.radial_n + 1;
    if j < half {
        (((min_index + j) % parent.radial_n as int) + parent.vertex_index) as usize
    } else if j >= child_n - half {
        (((min_index + (child_n - 1 - j)) % parent.radial_n as int) + parent.vertex_index
            + stride) as usize
    } else {
        0usize
    }
}

/// Maps the vertices around a side branch's hole on the parent ring to the
/// vertices of the child's base ring.
pub fn get_child_index_order(
    parent_base: &CircleDesignator,
    child_radial_n: usize,
    child_range: &IndexRange,
) -> (order: Vec<usize>)
    requires
        parent_base.radial_n + 1 <= usize::MAX,
        child_radial_n / 2 > 0 ==> {
            &&& parent_base.radial_n > 0
            &&& (child_range.min_index as usize) + child_radial_n / 2 - 1 <= usize::MAX
            &&& parent_base.vertex_index + 2 * parent_base.radial_n <= usize::MAX
        },
    ensures
        order@.len() == child_radial_n,
        forall|j: int|
            0 <= j < child_radial_n ==> #[trigger] order@[j] == child_index_at(
                *parent_base,
                child_radial_n as int,
                (child_range.min_index as usize) as int,
                j,
            ),
        // the first half walks the parent ring's vertices from the hole's
        // start, wrapping around the ring
        forall|j: int|
            0 <= j < child_radial_n / 2 ==> #[trigger] order@[j] == ((child_range.min_index as usize)
                as int + j) % (parent_base.radial_n as int) + parent_base.vertex_index,
        // the second half mirrors it one ring further on
        forall|j: int|
            0 <= j < child_radial_n / 2 ==> #[trigger] order@[child_radial_n - 1 - j] == order@[j]
                + parent_base.radial_n + 1,
        // an odd ring's middle entry stays zero
        child_radial_n % 2 == 1 ==> order@[(child_radial_n / 2) as int] == 0,
{
    let mut order: Vec<usize> = Vec::new();
    let mut k: usize = 0;
    while k < child_radial_n
        invariant
            k <= child_radial_n,
            order@.len() == k,
            forall|j: int| 0 <= j < k ==> order@[j] == 0,
        decreases child_radial_n - k,
    {
        order.push(0);
        k = k + 1;
    }
    let stride = parent_base.radial_n + 1;
    let half = child_radial_n / 2;
    let min = child_range.min_index as usize;
    let mut i: usize = 0;
    while i < half
        invariant
            parent_base.radial_n + 1 <= usize::MAX,
            half > 0 ==> {
                &&& parent_base.radial_n > 0
                &&& min + half - 1 <= usize::MAX
                &&& parent_base.vertex_index + 2 * parent_base.radial_n <= usize::MAX
            },
            min == child_range.min_index as usize,
            stride == parent_base.radial_n + 1,
            half == child_radial_n / 2,
            i <= half,
            order@.len() == child_radial_n,
            forall|j: int|
                0 <= j < child_radial_n ==> #[trigger] order@[j] == if j < i || j >= child_radial_n - i {
                    child_index_at(*parent_base, child_radial_n as int, min as int, j)
                } else {
                    0usize
                },
        decreases half - i,
    {
        let lower = ((min + i) % parent_base.radial_n) + parent_base.vertex_index;
        let upper = lower + stride;
        order.set(i, lower);
        order.set(child_radial_n - i - 1, upper);
        i = i + 1;
    }
    order
}

/// The number of vertices of a child base ring whose hole spans `range` on
/// a parent ring of `parent_n` vertices: twice the hole's width in
/// positions (counted around the ring, both ends included), at least four.
/// A width that comes out as zero gives the minimum ring.
pub open spec fn child_ring_size_spec(range: IndexRange, parent_n: int) -> int {
    let width = trunc_rem(range.max_index - range.min_index + parent_n, parent_n) + 1;
    if 2 * width < 4 {
        4
    } else {
        2 * width
    }
}

/// Number of vertices of the base ring of a side branch attached over
/// `range` on a parent ring of `parent_radial_n` vertices.
pub fn child_ring_size(range: &IndexRange, parent_radial_n: usize) -> (n: usize)
    requires
        0 < parent_radial_n <= i32::MAX,
        i32::MIN <= range.max_index - range.min_index <= i32::MAX,
        range.max_index - range.min_index + parent_radial_n <= i32::MAX,
        trunc_rem(range.max_index - range.min_index + parent_radial_n, parent_radial_n as int) >= -1,
    ensures
        n == child_ring_size_spec(*range, parent_radial_n as int),
        // two base-ring vertices per hole position, one below and one above,
        // and never fewer than four
        n % 2 == 0,
        n >= 4,
        0 <= range.max_index - range.min_index + parent_radial_n ==> n == if 2 * ((
        range.max_index - range.min_index + parent_radial_n) % (parent_radial_n as int) + 1) < 4 {
            4
        } else {
            2 * ((range.max_index - range.min_index + parent_radial_n) % (parent_radial_n as int) + 1)
        },
        range.max_index - range.min_index + parent_radial_n < 0 ==> n == 4,
{
    let p = parent_radial_n as i32;
    let width = (range.max_index - range.min_index + p) % p + 1;
    let n = 2 * (width as usize);
    if n < 4 {
        4
    } else {
        n
    }
}

/// The quads joining the junction polygon `polygon` (read starting at
/// `offset`) to positions `0..count` of the child base ring at `child_vi`.
pub open spec fn junction_seq(
    polygon: Seq<usize>,
    child_vi: usize,
    radial_n: int,
    offset: int,
    count: nat,
) -> Seq<i32>
    decreases count,
{
    if count == 0 {
        Seq::empty()
    } else {
        let i = count - 1;
        let parent_idx = (i + offset) % radial_n;
        junction_seq(polygon, child_vi, radial_n, offset, (count - 1) as nat) + quad_seq(
            polygon[parent_idx],
            polygon[(parent_idx + 1) % radial_n],
            (child_vi + i + 1) as usize,
            (child_vi + i) as usize,
        )
    }
}

/// Joins the hole in the parent surface to the base ring of a side branch:
/// one quad per base-ring position, the polygon read from `offset` on so
/// that the child's twist lines up with the parent.
pub fn add_junction_quads(
    polygon: &Vec<usize>,
    child_base: &CircleDesignator,
    offset: usize,
    indices: &mut Vec<i32>,
)
    requires
        polygon@.len() >= child_base.radial_n,
        child_base.radial_n > 0 ==> offset + child_base.radial_n - 1 <= usize::MAX,
        child_base.vertex_index + child_base.radial_n <= usize::MAX,
    ensures
        final(indices)@ == old(indices)@ + junction_seq(
            polygon@,
            child_base.vertex_index,
            child_base.radial_n as int,
            offset as int,
            child_base.radial_n as nat,
        ),
        // base-ring position `i` gets the quad joining polygon entries `p` and
        // `p + 1` (`p` being `i` moved on by the offset, around the polygon) to
        // base-ring vertices `i + 1` and `i`
        final(indices)@.len() == old(indices)@.len() + 6 * child_base.radial_n,
        forall|i: int|
            0 <= i < child_base.radial_n ==> {
                let at = #[trigger] quad_at(old(indices)@.len() as int, i);
                let p = (i + offset) % (child_base.radial_n as int);
                let pn = (p + 1) % (child_base.radial_n as int);
                let c = child_base.vertex_index + i;
                &&& final(indices)@[at] == polygon@[p] as i32
                &&& final(indices)@[at + 1] == (c + 1) as i32
                &&& final(indices)@[at + 2] == polygon@[pn] as i32
                &&& final(indices)@[at + 3] == polygon@[p] as i32
                &&& final(indices)@[at + 4] == c as i32
                &&& final(indices)@[at + 5] == (c + 1) as i32
            },
{
    let radial_n = child_base.radial_n;
    let ghost start = indices@;
    let mut i: usize = 0;
    while i < radial_n
        invariant
            radial_n == child_base.radial_n,
            polygon@.len() >= radial_n,
            radial_n > 0 ==> offset + radial_n - 1 <= usize::MAX,
            child_base.vertex_index + radial_n <= usize::MAX,
            i <= radial_n,
            indices@ == start + junction_seq(
                polygon@,
                child_base.vertex_index,
                radial_n as int,
                offset as int,
                i as nat,
            ),
        decreases radial_n - i,
    {
        let parent_idx = (i + offset) % radial_n;
        let v0 = polygon[parent_idx];
        let v1 = polygon[(parent_idx + 1) % radial_n];
        let v2 = child_base.vertex_index + (i + 1);
        let v3 = child_base.vertex_index + i;
        add_quad(indices, v0, v1, v2, v3);
        i = i + 1;
        assert(indices@ =~= start + junction_seq(
            polygon@,
            child_base.vertex_index,
            radial_n as int,
            offset as int,
            i as nat,
        ));
    }
    proof {
        lemma_junction_layout(polygon@, child_base.vertex_index, radial_n as int, offset as int, radial_n as nat);
        let out = indices@;
        assert forall|i: int| 0 <= i < radial_n implies {
            let at = #[trigger] quad_at(start.len() as int, i);
            let p = (i + offset) % (radial_n as int);
            let pn = (p + 1) % (radial_n as int);
            let c = child_base.vertex_index + i;
            &&& out[at] == polygon@[p] as i32
            &&& out[at + 1] == (c + 1) as i32
            &&& out[at + 2] == polygon@[pn] as i32
            &&& out[at + 3] == polygon@[p] as i32
            &&& out[at + 4] == c as i32
            &&& out[at + 5] == (c + 1) as i32
        } by {
            let p = (i + offset) % (radial_n as int);
            let q = quad_seq(
                polygon@[p],
                polygon@[(p + 1) % (radial_n as int)],
                (child_base.vertex_index + i + 1) as usize,
                (child_base.vertex_index + i) as usize,
            );
            assert forall|t: int| 0 <= t < 6 implies out[start.len() + 6 * i + t] == q[t] by {
                assert(junction_seq(polygon@, child_base.vertex_index, radial_n as int, offset as int, radial_n as nat)[6 * i + t] == q[t]);
            }
            assert(out[start.len() + 6 * i] == q[0]);
            assert(out[start.len() + 6 * i + 1] == q[1]);
            assert(out[start.len() + 6 * i + 2] == q[2]);
            assert(out[start.len() + 6 * i + 3] == q[3]);
            assert(out[start.len() + 6 * i + 4] == q[4]);
            assert(out[start.len() + 6 * i + 5] == q[5]);
        }
    }
}

/// Every index of `s` addresses a vertex of one of the two rings that start
/// at `first` and `second` and have `count + 1` vertices each.
pub open spec fn on_two_rings(s: Seq<i32>, first: int, second: int, count: int) -> bool {
    forall|k: int|
        0 <= k < s.len() ==> (first <= #[trigger] s[k] <= first + count) || (second <= s[k]
            <= second + count)
}

/// A bridge between two rings only uses vertices of those two rings, so
/// the side wall it makes joins them and nothing else.
pub proof fn lemma_bridge_on_rings(
    first: usize,
    second: usize,
    count: nat,
    radial_n: int,
    mask: Option<Seq<IndexRange>>,
)
    requires
        first + count <= i32::MAX,
        second + count <= i32::MAX,
    ensures
        on_two_rings(bridge_seq(first, second, count, radial_n, mask), first as int, second as int, count as int),
    decreases count,
{
    if count > 0 {
        let i = count - 1;
        lemma_bridge_on_rings(first, second, (count - 1) as nat, radial_n, mask);
        let prev = bridge_seq(first, second, (count - 1) as nat, radial_n, mask);
        let last = if skipped(mask, i, radial_n) {
            Seq::empty()
        } else {
            quad_seq(
                (first + i) as usize,
                (first + i + 1) as usize,
                (second + i + 1) as usize,
                (second + i) as usize,
            )
        };
        assert(bridge_seq(first, second, count, radial_n, mask) == prev + last);
        assert forall|k: int| 0 <= k < (prev + last).len() implies (first <= #[trigger] (prev + last)[k] <= first + count) || (second <= (prev + last)[k] <= second + count) by {
            if k < prev.len() {
                assert((prev + last)[k] == prev[k]);
            } else {
                assert((prev + last)[k] == last[k - prev.len()]);
            }
        }
    }
}

/// Every entry of the junction polygon of a side branch lies on the parent
/// ring it starts from (the first half) or on the ring above it (the second
/// half); an odd middle entry is zero.
pub proof fn lemma_child_index_on_parent_rings(
    parent: CircleDesignator,
    child_n: int,
    min_index: nat,
    j: int,
)
    requires
        parent.radial_n > 0,
        parent.vertex_index + 2 * parent.radial_n + 1 <= usize::MAX,
        0 <= j < child_n,
    ensures
        j < child_n / 2 ==> parent.vertex_index <= child_index_at(parent, child_n, min_index as int, j)
            < parent.vertex_index + parent.radial_n,
        j >= child_n - child_n / 2 && !(j < child_n / 2) ==> parent.vertex_index + parent.radial_n + 1
            <= child_index_at(parent, child_n, min_index as int, j) < parent.vertex_index + 2
            * parent.radial_n + 1,
        child_n / 2 <= j < child_n - child_n / 2 ==> child_index_at(parent, child_n, min_index as int, j)
            == 0,
{
}

/// The quads that join a side branch's hole to its base ring use only the
/// junction polygon's vertices and the vertices of the base ring.
pub proof fn lemma_junction_uses_polygon_and_ring(
    polygon: Seq<usize>,
    child_vi: usize,
    radial_n: int,
    offset: int,
    count: nat,
)
    requires
        radial_n > 0,
        polygon.len() >= radial_n,
        0 <= offset,
        child_vi + count <= i32::MAX,
        forall|q: int| 0 <= q < polygon.len() ==> #[trigger] polygon[q] <= i32::MAX,
    ensures
        forall|k: int|
            0 <= k < junction_seq(polygon, child_vi, radial_n, offset, count).len() ==> {
                let e = #[trigger] junction_seq(polygon, child_vi, radial_n, offset, count)[k];
                (exists|q: int| 0 <= q < radial_n && e == polygon[q] as int) || (child_vi <= e
                    <= child_vi + count)
            },
    decreases count,
{
    if count > 0 {
        let i = count - 1;
        lemma_junction_uses_polygon_and_ring(polygon, child_vi, radial_n, offset, (count - 1) as nat);
        let prev = junction_seq(polygon, child_vi, radial_n, offset, (count - 1) as nat);
        let parent_idx = (i + offset) % radial_n;
        let next_idx = (parent_idx + 1) % radial_n;
        let last = quad_seq(
            polygon[parent_idx],
            polygon[next_idx],
            (child_vi + i + 1) as usize,
            (child_vi + i) as usize,
        );
        let all = junction_seq(polygon, child_vi, radial_n, offset, count);
        assert(all == prev + last);
        assert forall|k: int| 0 <= k < all.len() implies {
            let e = #[trigger] all[k];
            (exists|q: int| 0 <= q < radial_n && e == polygon[q] as int) || (child_vi <= e <= child_vi + count)
        } by {
            if k < prev.len() {
                assert(all[k] == prev[k]);
            } else {
                let e = all[k];
                assert(e == last[k - prev.len()]);
                if e == polygon[parent_idx] as i32 {
                    assert(polygon[parent_idx] <= i32::MAX);
                    assert(e == polygon[parent_idx] as int);
                } else if e == polygon[next_idx] as i32 {
                    assert(polygon[next_idx] <= i32::MAX);
                    assert(e == polygon[next_idx] as int);
                }
            }
        }
    }
}

/// Where the quad of position `i` starts among indices that begin at `base`.
pub open spec fn quad_at(base: int, i: int) -> int {
    base + 6 * i
}

/// With no side branches a bridge holds one quad per position, the quad of
/// position `i` at offset `6 * i`.
proof fn lemma_open_bridge_layout(first: usize, second: usize, count: nat, radial_n: int)
    ensures
        bridge_seq(first, second, count, radial_n, None).len() == 6 * count,
        forall|i: int, t: int|
            0 <= i < count && 0 <= t < 6 ==> #[trigger] bridge_seq(first, second, count, radial_n, None)[6 * i + t]
                == quad_seq(
                (first + i) as usize,
                (first + i + 1) as usize,
                (second + i + 1) as usize,
                (second + i) as usize,
            )[t],
    decreases count,
{
    if count > 0 {
        lemma_open_bridge_layout(first, second, (count - 1) as nat, radial_n);
        let prev = bridge_seq(first, second, (count - 1) as nat, radial_n, None);
        let i = count - 1;
        assert(!skipped(None, i, radial_n));
        let last = quad_seq(
            (first + i) as usize,
            (first + i + 1) as usize,
            (second + i + 1) as usize,
            (second + i) as usize,
        );
        assert(bridge_seq(first, second, count, radial_n, None) == prev + last);
    }
}

/// The junction quads come one per base-ring position, the quad of
/// position `i` at offset `6 * i`.
proof fn lemma_junction_layout(polygon: Seq<usize>, child_vi: usize, radial_n: int, offset: int, count: nat)
    ensures
        junction_seq(polygon, child_vi, radial_n, offset, count).len() == 6 * count,
        forall|i: int, t: int|
            0 <= i < count && 0 <= t < 6 ==> #[trigger] junction_seq(polygon, child_vi, radial_n, offset, count)[6 * i + t]
                == quad_seq(
                polygon[(i + offset) % radial_n],
                polygon[((i + offset) % radial_n + 1) % radial_n],
                (child_vi + i + 1) as usize,
                (child_vi + i) as usize,
            )[t],
    decreases count,
{
    if count > 0 {
        lemma_junction_layout(polygon, child_vi, radial_n, offset, (count - 1) as nat);
    }
}

} // verus!
