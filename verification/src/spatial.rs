use std::collections::HashMap;
use std::collections::HashSet;
use vstd::prelude::*;

verus! {

broadcast use vstd::std_specs::hash::group_hash_axioms;

/// Coordinates of one cell of a uniform grid.
pub type CellCoord = (i32, i32, i32);

/// Shifts a coordinate into `0..2^32`.
pub open spec fn shifted(c: i32) -> int {
    c + 2147483648
}

/// The key a cell is stored under: its three shifted coordinates as the
/// digits of a base-2^32 number.
pub open spec fn key_of(p: CellCoord) -> u128 {
    ((shifted(p.0) * 4294967296 + shifted(p.1)) * 4294967296 + shifted(p.2)) as u128
}

/// `p` lies in the box spanned by `lo` and `hi`, bounds included.
pub open spec fn in_box(p: CellCoord, lo: CellCoord, hi: CellCoord) -> bool {
    &&& lo.0 <= p.0 <= hi.0
    &&& lo.1 <= p.1 <= hi.1
    &&& lo.2 <= p.2 <= hi.2
}

/// `p` lies in the box and comes, in x-major order, before the cell
/// `(x, y, z)`: the cells a sweep of the box has visited when it reaches `(x, y, z)`.
pub open spec fn swept(p: CellCoord, lo: CellCoord, hi: CellCoord, x: int, y: int, z: int) -> bool {
    &&& in_box(p, lo, hi)
    &&& (p.0 < x || (p.0 == x && (p.1 < y || (p.1 == y && p.2 < z))))
}

/// `s` with every repeat of an earlier entry left out.
pub open spec fn first_occurrences(s: Seq<usize>) -> Seq<usize>
    decreases s.len(),
{
    if s.len() == 0 {
        s
    } else {
        let d = first_occurrences(s.drop_last());
        if d.contains(s.last()) {
            d
        } else {
            d.push(s.last())
        }
    }
}

proof fn lemma_digits(a1: int, b1: int, a2: int, b2: int)
    requires
        0 <= b1 < 4294967296,
        0 <= b2 < 4294967296,
        a1 * 4294967296 + b1 == a2 * 4294967296 + b2,
    ensures
        a1 == a2,
        b1 == b2,
{
    assert(a1 == a2) by (nonlinear_arith)
        requires
            0 <= b1 < 4294967296,
            0 <= b2 < 4294967296,
            a1 * 4294967296 + b1 == a2 * 4294967296 + b2,
    ;
}

/// Distinct cells are stored under distinct keys.
pub proof fn lemma_key_injective(p: CellCoord, q: CellCoord)
    ensures
        key_of(p) == key_of(q) ==> p == q,
{
    let ap = shifted(p.0) * 4294967296 + shifted(p.1);
    let aq = shifted(q.0) * 4294967296 + shifted(q.1);
    assert(0 <= ap * 4294967296 + shifted(p.2) < 0x1_0000_0000_0000_0000_0000_0000) by (nonlinear_arith)
        requires
            ap == shifted(p.0) * 4294967296 + shifted(p.1),
            0 <= shifted(p.0) < 4294967296,
            0 <= shifted(p.1) < 4294967296,
            0 <= shifted(p.2) < 4294967296,
    ;
    assert(0 <= aq * 4294967296 + shifted(q.2) < 0x1_0000_0000_0000_0000_0000_0000) by (nonlinear_arith)
        requires
            aq == shifted(q.0) * 4294967296 + shifted(q.1),
            0 <= shifted(q.0) < 4294967296,
            0 <= shifted(q.1) < 4294967296,
            0 <= shifted(q.2) < 4294967296,
    ;
    if key_of(p) == key_of(q) {
        lemma_digits(ap, shifted(p.2), aq, shifted(q.2));
        lemma_digits(shifted(p.0), shifted(p.1), shifted(q.0), shifted(q.1));
    }
}

/// Computes the key of a cell.
fn cell_key(p: CellCoord) -> (k: u128)
    ensures
        k == key_of(p),
{
    let a = (p.0 as i64 + 2147483648i64) as u128;
    let b = (p.1 as i64 + 2147483648i64) as u128;
    let c = (p.2 as i64 + 2147483648i64) as u128;
    assert(a * 4294967296 + b < 0x1_0000_0000_0000_0000) by (nonlinear_arith)
        requires
            a < 4294967296,
            b < 4294967296,
    ;
    let ab = a * 4294967296 + b;
    assert(ab * 4294967296 + c < 0x1_0000_0000_0000_0000_0000_0000) by (nonlinear_arith)
        requires
            ab < 0x1_0000_0000_0000_0000,
            c < 4294967296,
    ;
    ab * 4294967296 + c
}

/// A uniform grid of cells, each holding the indices of the items
/// registered in it, in registration order. Only the cells that were
/// written to take space.
pub struct SpatialCells {
    cells: HashMap<u128, Vec<usize>>,
}

impl SpatialCells {
    /// The indices held by cell `p` (empty for an untouched cell).
    pub closed spec fn cell(&self, p: CellCoord) -> Seq<usize> {
        if self.cells@.contains_key(key_of(p)) {
            self.cells@[key_of(p)]@
        } else {
            Seq::empty()
        }
    }

    /// The contents of the cells `(x, y, z)` for `z` in `zlo..zend`, in order.
    pub open spec fn row_cells(&self, x: int, y: int, zlo: int, zend: int) -> Seq<usize>
        decreases zend - zlo,
    {
        if zend <= zlo {
            Seq::empty()
        } else {
            self.row_cells(x, y, zlo, zend - 1) + self.cell((x as i32, y as i32, (zend - 1) as i32))
        }
    }

    /// The rows `y` in `ylo..yend` of slab `x`, each over `zlo..=zhi`.
    pub open spec fn slab_cells(&self, x: int, ylo: int, yend: int, zlo: int, zhi: int) -> Seq<usize>
        decreases yend - ylo,
    {
        if yend <= ylo {
            Seq::empty()
        } else {
            self.slab_cells(x, ylo, yend - 1, zlo, zhi) + self.row_cells(x, yend - 1, zlo, zhi + 1)
        }
    }

    /// The slabs `x` in `xlo..xend`, each over `ylo..=yhi` and `zlo..=zhi`.
    pub open spec fn box_cells(
        &self,
        xlo: int,
        xend: int,
        ylo: int,
        yhi: int,
        zlo: int,
        zhi: int,
    ) -> Seq<usize>
        decreases xend - xlo,
    {
        if xend <= xlo {
            Seq::empty()
        } else {
            self.box_cells(xlo, xend - 1, ylo, yhi, zlo, zhi) + self.slab_cells(
                xend - 1,
                ylo,
                yhi + 1,
                zlo,
                zhi,
            )
        }
    }

    /// The contents of every cell of the box from `lo` to `hi`, bounds
    /// included, swept with x outermost, then y, then z.
    pub open spec fn sweep_cells(&self, lo: CellCoord, hi: CellCoord) -> Seq<usize> {
        self.box_cells(lo.0 as int, hi.0 + 1, lo.1 as int, hi.1 as int, lo.2 as int, hi.2 as int)
    }

    /// An empty grid.
    pub fn new() -> (s: Self)
        ensures
            forall|p: CellCoord| #[trigger] s.cell(p) == Seq::<usize>::empty(),
    {
        SpatialCells { cells: HashMap::new() }
    }

    /// The indices held by cell `p`.
    pub fn get_cell(&self, p: CellCoord) -> (r: Vec<usize>)
        ensures
            r@ == self.cell(p),
    {
        let k = cell_key(p);
        match self.cells.get(&k) {
            Some(v) => v.clone(),
            None => Vec::new(),
        }
    }

    /// Appends `idx` to cell `p`.
    pub fn push_at(&mut self, p: CellCoord, idx: usize)
        ensures
            forall|q: CellCoord|
                #[trigger] final(self).cell(q) == if q == p {
                    old(self).cell(p).push(idx)
                } else {
                    old(self).cell(q)
                },
    {
        let k = cell_key(p);
        let removed = self.cells.remove(&k);
        match removed {
            Some(mut v) => {
                v.push(idx);
                self.cells.insert(k, v);
            },
            None => {
                let mut v: Vec<usize> = Vec::new();
                v.push(idx);
                self.cells.insert(k, v);
            },
        }
        proof {
            assert forall|q: CellCoord| #[trigger] self.cell(q) == if q == p {
                old(self).cell(p).push(idx)
            } else {
                old(self).cell(q)
            } by {
                lemma_key_injective(p, q);
                if q == p {
                    if !old(self).cells@.contains_key(k) {
                        assert(self.cell(p) =~= Seq::<usize>::empty().push(idx));
                    }
                }
            }
        }
    }

    /// Appends `idx` to cell `p` unless that cell already holds it.
    pub fn push_at_once(&mut self, p: CellCoord, idx: usize)
        ensures
            forall|q: CellCoord|
                #[trigger] final(self).cell(q) == if q == p && !old(self).cell(p).contains(idx) {
                    old(self).cell(p).push(idx)
                } else {
                    old(self).cell(q)
                },
    {
        let current = self.get_cell(p);
        let mut k: usize = 0;
        let mut found = false;
        while k < current.len()
            invariant
                k <= current@.len(),
                found == (exists|i: int| 0 <= i < k && current@[i] == idx),
            decreases current@.len() - k,
        {
            if current[k] == idx {
                found = true;
            }
            k = k + 1;
        }
        if !found {
            self.push_at(p, idx);
        } else {
            proof {
                let i = choose|i: int| 0 <= i < k && current@[i] == idx;
                assert(old(self).cell(p).contains(idx));
            }
        }
        proof {
            if !found {
                assert(!old(self).cell(p).contains(idx));
            }
        }
    }

    /// Appends to `result` the indices of cell `p` that `seen` does not
    /// hold yet, recording them in `seen`.
    fn collect_cell(
        &self,
        p: CellCoord,
        result: &mut Vec<usize>,
        seen: &mut HashSet<usize>,
        Ghost(pre): Ghost<Seq<usize>>,
    )
        requires
            old(seen)@ == old(result)@.to_set(),
            old(result)@.no_duplicates(),
            old(result)@ == first_occurrences(pre),
        ensures
            final(result)@ == first_occurrences(pre + self.cell(p)),
            final(seen)@ == final(result)@.to_set(),
            final(result)@.no_duplicates(),
            forall|u: usize|
                #[trigger] final(result)@.contains(u) <==> (old(result)@.contains(u) || self.cell(
                    p,
                ).contains(u)),
    {
        let k = cell_key(p);
        match self.cells.get(&k) {
            Some(list) => {
                let ghost r0 = result@;
                let mut i: usize = 0;
                while i < list.len()
                    invariant
                        list@ == self.cell(p),
                        i <= list@.len(),
                        result@ == first_occurrences(pre + list@.take(i as int)),
                        seen@ == result@.to_set(),
                        result@.no_duplicates(),
                        forall|u: usize|
                            #[trigger] result@.contains(u) <==> (r0.contains(u) || exists|j: int|
                                0 <= j < i && list@[j] == u),
                    decreases list@.len() - i,
                {
                    let idx = list[i];
                    let ghost before = result@;
                    proof {
                        let t = (pre + list@.take(i as int)).push(idx);
                        assert(pre + list@.take(i + 1) =~= t);
                        assert(t.drop_last() =~= pre + list@.take(i as int));
                        assert(t.last() == idx);
                        assert(before.to_set().contains(idx) == before.contains(idx));
                    }
                    if seen.insert(idx) {
                        result.push(idx);
                        proof {
                            assert(!before.contains(idx));
                            assert forall|a: int, b: int|
                                0 <= a < result@.len() && 0 <= b < result@.len() && a != b implies result@[a]
                                != result@[b] by {
                                if a == before.len() {
                                    assert(before.contains(result@[b]));
                                } else if b == before.len() {
                                    assert(before.contains(result@[a]));
                                } else {
                                    assert(result@[a] == before[a] && result@[b] == before[b]);
                                }
                            }
                            assert(result@.to_set() =~= before.to_set().insert(idx)) by {
                                assert forall|u: usize| result@.to_set().contains(u) implies before.to_set().insert(idx).contains(u) by {
                                    let j = choose|j: int| 0 <= j < result@.len() && result@[j] == u;
                                    if j < before.len() {
                                        assert(before[j] == u);
                                    }
                                }
                                assert forall|u: usize| before.to_set().insert(idx).contains(u) implies result@.to_set().contains(u) by {
                                    if u == idx {
                                        assert(result@[before.len() as int] == idx);
                                    } else {
                                        let j = choose|j: int| 0 <= j < before.len() && before[j] == u;
                                        assert(result@[j] == u);
                                    }
                                }
                            }
                        }
                    }
                    proof {
                        assert forall|u: usize| #[trigger] result@.contains(u) <==> (r0.contains(u) || exists|j: int|
                            0 <= j < i + 1 && list@[j] == u) by {
                            if result@.contains(u) && !before.contains(u) {
                                let j = choose|j: int| 0 <= j < result@.len() && result@[j] == u;
                                assert(u == idx);
                                assert(list@[i as int] == u);
                            }
                            if before.contains(u) {
                                let j = choose|j: int| 0 <= j < before.len() && before[j] == u;
                                assert(result@[j] == u);
                            }
                            if exists|j: int| 0 <= j < i + 1 && list@[j] == u {
                                let j = choose|j: int| 0 <= j < i + 1 && list@[j] == u;
                                if j == i {
                                    assert(u == idx);
                                    assert(seen@.contains(idx));
                                    assert(result@.to_set().contains(idx));
                                }
                            }
                        }
                    }
                    i = i + 1;
                }
                proof {
                    assert(list@.take(i as int) =~= list@);
                    assert forall|u: usize| #[trigger] result@.contains(u) <==> (r0.contains(u) || self.cell(p).contains(u)) by {
                        if self.cell(p).contains(u) {
                            let j = choose|j: int| 0 <= j < list@.len() && list@[j] == u;
                        }
                    }
                }
            },
            None => {
                proof {
                    assert(pre + self.cell(p) =~= pre);
                }
            },
        }
    }

    /// Registers `idx` in every cell of the box from `lo` to `hi`, bounds
    /// included.
    pub fn insert_range(&mut self, idx: usize, lo: CellCoord, hi: CellCoord)
        ensures
            forall|q: CellCoord|
                #[trigger] final(self).cell(q) == if in_box(q, lo, hi) {
                    old(self).cell(q).push(idx)
                } else {
                    old(self).cell(q)
                },
    {
        let ghost s0 = *self;
        let mut x: i64 = lo.0 as i64;
        while x <= hi.0 as i64
            invariant
                lo.0 <= x,
                x <= hi.0 + 1 || x == lo.0,
                forall|q: CellCoord|
                    #[trigger] self.cell(q) == if swept(q, lo, hi, x as int, lo.1 as int, lo.2 as int) {
                        s0.cell(q).push(idx)
                    } else {
                        s0.cell(q)
                    },
            decreases hi.0 + 1 - x,
        {
            let mut y: i64 = lo.1 as i64;
            while y <= hi.1 as i64
                invariant
                    lo.0 <= x <= hi.0,
                    lo.1 <= y,
                    y <= hi.1 + 1 || y == lo.1,
                    forall|q: CellCoord|
                        #[trigger] self.cell(q) == if swept(q, lo, hi, x as int, y as int, lo.2 as int) {
                            s0.cell(q).push(idx)
                        } else {
                            s0.cell(q)
                        },
                decreases hi.1 + 1 - y,
            {
                let mut z: i64 = lo.2 as i64;
                while z <= hi.2 as i64
                    invariant
                        lo.0 <= x <= hi.0,
                        lo.1 <= y <= hi.1,
                        lo.2 <= z,
                        z <= hi.2 + 1 || z == lo.2,
                        forall|q: CellCoord|
                            #[trigger] self.cell(q) == if swept(q, lo, hi, x as int, y as int, z as int) {
                                s0.cell(q).push(idx)
                            } else {
                                s0.cell(q)
                            },
                    decreases hi.2 + 1 - z,
                {
                    let p: CellCoord = (x as i32, y as i32, z as i32);
                    self.push_at(p, idx);
                    z = z + 1;
                    assert forall|q: CellCoord| #[trigger] self.cell(q) == if swept(q, lo, hi, x as int, y as int, z as int) {
                        s0.cell(q).push(idx)
                    } else {
                        s0.cell(q)
                    } by {
                        if q == p {
                            assert(swept(q, lo, hi, x as int, y as int, z as int));
                        }
                    }
                }
                y = y + 1;
                assert forall|q: CellCoord| #[trigger] self.cell(q) == if swept(q, lo, hi, x as int, y as int, lo.2 as int) {
                    s0.cell(q).push(idx)
                } else {
                    s0.cell(q)
                } by {
                    assert(swept(q, lo, hi, x as int, y as int, lo.2 as int) == swept(q, lo, hi, x as int, y - 1, z as int));
                }
            }
            x = x + 1;
            assert forall|q: CellCoord| #[trigger] self.cell(q) == if swept(q, lo, hi, x as int, lo.1 as int, lo.2 as int) {
                s0.cell(q).push(idx)
            } else {
                s0.cell(q)
            } by {
                assert(swept(q, lo, hi, x as int, lo.1 as int, lo.2 as int) == swept(q, lo, hi, x - 1, y as int, lo.2 as int));
            }
        }
        assert forall|q: CellCoord| #[trigger] self.cell(q) == if in_box(q, lo, hi) {
            s0.cell(q).push(idx)
        } else {
            s0.cell(q)
        } by {
            assert(swept(q, lo, hi, x as int, lo.1 as int, lo.2 as int) == in_box(q, lo, hi));
        }
    }

    /// The indices registered in some cell of the box from `lo` to `hi`,
    /// bounds included, each listed once, in the order a sweep of the box
    /// (x outermost, then y, then z) first meets them.
    pub fn query_range(&self, lo: CellCoord, hi: CellCoord) -> (result: Vec<usize>)
        ensures
            result@ == first_occurrences(self.sweep_cells(lo, hi)),
            result@.no_duplicates(),
            forall|u: usize|
                #[trigger] result@.contains(u) <==> exists|q: CellCoord|
                    in_box(q, lo, hi) && #[trigger] self.cell(q).contains(u),
    {
        let mut result: Vec<usize> = Vec::new();
        let mut seen: HashSet<usize> = HashSet::new();
        proof {
            assert(result@.to_set() =~= Set::<usize>::empty());
            assert(result@ =~= first_occurrences(Seq::<usize>::empty()));
        }
        let mut x: i64 = lo.0 as i64;
        while x <= hi.0 as i64
            invariant
                lo.0 <= x,
                x <= hi.0 + 1 || x == lo.0,
                result@ == first_occurrences(self.box_cells(lo.0 as int, x as int, lo.1 as int, hi.1 as int, lo.2 as int, hi.2 as int)),
                seen@ == result@.to_set(),
                result@.no_duplicates(),
                forall|u: usize|
                    #[trigger] result@.contains(u) <==> exists|q: CellCoord|
                        swept(q, lo, hi, x as int, lo.1 as int, lo.2 as int) && #[trigger] self.cell(q).contains(u),
            decreases hi.0 + 1 - x,
        {
            let mut y: i64 = lo.1 as i64;
            while y <= hi.1 as i64
                invariant
                    lo.0 <= x <= hi.0,
                    lo.1 <= y,
                    y <= hi.1 + 1 || y == lo.1,
                    result@ == first_occurrences(self.box_cells(lo.0 as int, x as int, lo.1 as int, hi.1 as int, lo.2 as int, hi.2 as int) + self.slab_cells(x as int, lo.1 as int, y as int, lo.2 as int, hi.2 as int)),
                    seen@ == result@.to_set(),
                    result@.no_duplicates(),
                    forall|u: usize|
                        #[trigger] result@.contains(u) <==> exists|q: CellCoord|
                            swept(q, lo, hi, x as int, y as int, lo.2 as int) && #[trigger] self.cell(q).contains(u),
                decreases hi.1 + 1 - y,
            {
                let mut z: i64 = lo.2 as i64;
                while z <= hi.2 as i64
                    invariant
                        lo.0 <= x <= hi.0,
                        lo.1 <= y <= hi.1,
                        lo.2 <= z,
                        z <= hi.2 + 1 || z == lo.2,
                        result@ == first_occurrences(self.box_cells(lo.0 as int, x as int, lo.1 as int, hi.1 as int, lo.2 as int, hi.2 as int) + self.slab_cells(x as int, lo.1 as int, y as int, lo.2 as int, hi.2 as int) + self.row_cells(x as int, y as int, lo.2 as int, z as int)),
                        seen@ == result@.to_set(),
                        result@.no_duplicates(),
                        forall|u: usize|
                            #[trigger] result@.contains(u) <==> exists|q: CellCoord|
                                swept(q, lo, hi, x as int, y as int, z as int) && #[trigger] self.cell(q).contains(u),
                    decreases hi.2 + 1 - z,
                {
                    let p: CellCoord = (x as i32, y as i32, z as i32);
                    let ghost r0 = result@;
                    let ghost pre = self.box_cells(lo.0 as int, x as int, lo.1 as int, hi.1 as int, lo.2 as int, hi.2 as int) + self.slab_cells(x as int, lo.1 as int, y as int, lo.2 as int, hi.2 as int) + self.row_cells(x as int, y as int, lo.2 as int, z as int);
                    self.collect_cell(p, &mut result, &mut seen, Ghost(pre));
                    proof {
                        assert(p == (x as int as i32, y as int as i32, (z + 1 - 1) as i32));
                        assert(pre + self.cell(p) =~= self.box_cells(lo.0 as int, x as int, lo.1 as int, hi.1 as int, lo.2 as int, hi.2 as int) + self.slab_cells(x as int, lo.1 as int, y as int, lo.2 as int, hi.2 as int) + self.row_cells(x as int, y as int, lo.2 as int, z + 1));
                    }
                    z = z + 1;
                    assert forall|u: usize| #[trigger] result@.contains(u) <==> exists|q: CellCoord|
                        swept(q, lo, hi, x as int, y as int, z as int) && #[trigger] self.cell(q).contains(u) by {
                        if self.cell(p).contains(u) {
                            assert(swept(p, lo, hi, x as int, y as int, z as int));
                        }
                        if r0.contains(u) {
                            let q = choose|q: CellCoord| swept(q, lo, hi, x as int, y as int, z - 1) && #[trigger] self.cell(q).contains(u);
                            assert(swept(q, lo, hi, x as int, y as int, z as int));
                        }
                        if exists|q: CellCoord| swept(q, lo, hi, x as int, y as int, z as int) && #[trigger] self.cell(q).contains(u) {
                            let q = choose|q: CellCoord| swept(q, lo, hi, x as int, y as int, z as int) && #[trigger] self.cell(q).contains(u);
                            if q != p {
                                assert(swept(q, lo, hi, x as int, y as int, z - 1));
                            }
                        }
                    }
                }
                proof {
                    assert(self.row_cells(x as int, y as int, lo.2 as int, z as int) == self.row_cells(x as int, y as int, lo.2 as int, hi.2 + 1));
                    assert(self.box_cells(lo.0 as int, x as int, lo.1 as int, hi.1 as int, lo.2 as int, hi.2 as int) + self.slab_cells(x as int, lo.1 as int, y as int, lo.2 as int, hi.2 as int) + self.row_cells(x as int, y as int, lo.2 as int, z as int) =~= self.box_cells(lo.0 as int, x as int, lo.1 as int, hi.1 as int, lo.2 as int, hi.2 as int) + self.slab_cells(x as int, lo.1 as int, y + 1, lo.2 as int, hi.2 as int));
                }
                y = y + 1;
                assert forall|u: usize| #[trigger] result@.contains(u) <==> exists|q: CellCoord|
                    swept(q, lo, hi, x as int, y as int, lo.2 as int) && #[trigger] self.cell(q).contains(u) by {
                    assert forall|q: CellCoord| swept(q, lo, hi, x as int, y as int, lo.2 as int) == swept(q, lo, hi, x as int, y - 1, z as int) by {}
                }
            }
            proof {
                assert(self.slab_cells(x as int, lo.1 as int, y as int, lo.2 as int, hi.2 as int) == self.slab_cells(x as int, lo.1 as int, hi.1 + 1, lo.2 as int, hi.2 as int));
                assert(self.box_cells(lo.0 as int, x as int, lo.1 as int, hi.1 as int, lo.2 as int, hi.2 as int) + self.slab_cells(x as int, lo.1 as int, y as int, lo.2 as int, hi.2 as int) =~= self.box_cells(lo.0 as int, x + 1, lo.1 as int, hi.1 as int, lo.2 as int, hi.2 as int));
            }
            x = x + 1;
            assert forall|u: usize| #[trigger] result@.contains(u) <==> exists|q: CellCoord|
                swept(q, lo, hi, x as int, lo.1 as int, lo.2 as int) && #[trigger] self.cell(q).contains(u) by {
                assert forall|q: CellCoord| swept(q, lo, hi, x as int, lo.1 as int, lo.2 as int) == swept(q, lo, hi, x - 1, y as int, lo.2 as int) by {}
            }
        }
        assert forall|u: usize| #[trigger] result@.contains(u) <==> exists|q: CellCoord|
            in_box(q, lo, hi) && #[trigger] self.cell(q).contains(u) by {
            assert forall|q: CellCoord| swept(q, lo, hi, x as int, lo.1 as int, lo.2 as int) == in_box(q, lo, hi) by {}
        }
        assert(self.box_cells(lo.0 as int, x as int, lo.1 as int, hi.1 as int, lo.2 as int, hi.2 as int) == self.sweep_cells(lo, hi));
        result
    }
}

/// Read after write: once `idx` has been registered over the box `lo..hi`,
/// every query box that shares a cell with it finds `idx` in some cell,
/// so `query_range` over that box lists `idx`.
pub proof fn lemma_insert_then_query(
    before: SpatialCells,
    after: SpatialCells,
    idx: usize,
    lo: CellCoord,
    hi: CellCoord,
    qlo: CellCoord,
    qhi: CellCoord,
    shared: CellCoord,
)
    requires
        forall|q: CellCoord|
            #[trigger] after.cell(q) == if in_box(q, lo, hi) {
                before.cell(q).push(idx)
            } else {
                before.cell(q)
            },
        in_box(shared, lo, hi),
        in_box(shared, qlo, qhi),
    ensures
        exists|q: CellCoord| in_box(q, qlo, qhi) && #[trigger] after.cell(q).contains(idx),
{
    let s = before.cell(shared).push(idx);
    assert(s[s.len() - 1] == idx);
    assert(after.cell(shared).contains(idx));
}

/// Registering in a box leaves every cell outside it as it was, and only
/// appends to the cells inside it: what a cell held before stays, in order.
pub proof fn lemma_insert_keeps_earlier(
    before: SpatialCells,
    after: SpatialCells,
    idx: usize,
    lo: CellCoord,
    hi: CellCoord,
    q: CellCoord,
)
    requires
        forall|p: CellCoord|
            #[trigger] after.cell(p) == if in_box(p, lo, hi) {
                before.cell(p).push(idx)
            } else {
                before.cell(p)
            },
    ensures
        after.cell(q).subrange(0, before.cell(q).len() as int) == before.cell(q),
        !in_box(q, lo, hi) ==> after.cell(q) == before.cell(q),
{
    assert(after.cell(q).subrange(0, before.cell(q).len() as int) =~= before.cell(q));
}

} // verus!
