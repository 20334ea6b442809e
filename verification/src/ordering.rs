use std::collections::VecDeque;
use vstd::prelude::*;

verus! {

/// `order` lists each of `0..n` exactly once.
pub open spec fn is_permutation(order: Seq<usize>, n: nat) -> bool {
    &&& order.len() == n
    &&& order.no_duplicates()
    &&& forall|k: int| 0 <= k < order.len() ==> #[trigger] order[k] < n
}

/// Every parent link points at a node of the forest.
pub open spec fn links_in_range(parent_of: Seq<Option<usize>>) -> bool {
    forall|c: int| 0 <= c < parent_of.len() && (#[trigger] parent_of[c]) is Some ==> parent_of[c]->0 < parent_of.len()
}

/// The nodes among `0..upto` whose parent is `p`, in index order.
pub open spec fn children_upto(parent_of: Seq<Option<usize>>, p: usize, upto: int) -> Seq<usize>
    decreases upto,
{
    if upto <= 0 {
        Seq::empty()
    } else {
        children_upto(parent_of, p, upto - 1) + if parent_of[upto - 1] == Some(p) {
            seq![(upto - 1) as usize]
        } else {
            Seq::empty()
        }
    }
}

/// What `children_upto` holds: the nodes below `upto` whose parent is `p`,
/// each once.
proof fn lemma_children_upto(parent_of: Seq<Option<usize>>, p: usize, upto: int)
    requires
        0 <= upto <= parent_of.len(),
        upto <= usize::MAX + 1,
    ensures
        children_upto(parent_of, p, upto).no_duplicates(),
        forall|k: int| 0 <= k < children_upto(parent_of, p, upto).len() ==> #[trigger] children_upto(parent_of, p, upto)[k] < upto,
        forall|c: usize| #[trigger] children_upto(parent_of, p, upto).contains(c) <==> (c < upto && parent_of[c as int] == Some(p)),
        forall|a: int, b: int|
            #![trigger children_upto(parent_of, p, upto)[a], children_upto(parent_of, p, upto)[b]]
            0 <= a < b < children_upto(parent_of, p, upto).len() ==> children_upto(parent_of, p, upto)[a]
                < children_upto(parent_of, p, upto)[b],
    decreases upto,
{
    if upto > 0 {
        lemma_children_upto(parent_of, p, upto - 1);
        let prev = children_upto(parent_of, p, upto - 1);
        let cur = children_upto(parent_of, p, upto);
        if parent_of[upto - 1] == Some(p) {
            assert(cur == prev.push((upto - 1) as usize));
            assert forall|c: usize| #[trigger] cur.contains(c) <==> (c < upto && parent_of[c as int] == Some(p)) by {
                if c == upto - 1 {
                    assert(cur[prev.len() as int] == c);
                } else if cur.contains(c) {
                    let k = choose|k: int| 0 <= k < cur.len() && cur[k] == c;
                    assert(k < prev.len());
                    assert(prev[k] == c);
                    assert(prev.contains(c));
                } else if c < upto && parent_of[c as int] == Some(p) {
                    assert(prev.contains(c));
                    let k = choose|k: int| 0 <= k < prev.len() && prev[k] == c;
                    assert(cur[k] == c);
                }
            }
        } else {
            assert(cur =~= prev);
        }
    }
}

/// The child lists of a forest given by its parent links: list `p` holds
/// the nodes whose parent is `p`, in index order.
pub fn child_lists(parent_of: &[Option<usize>]) -> (children: Vec<Vec<usize>>)
    requires
        links_in_range(parent_of@),
    ensures
        children@.len() == parent_of@.len(),
        forall|p: int| 0 <= p < parent_of@.len() ==> (#[trigger] children@[p])@ == children_upto(parent_of@, p as usize, parent_of@.len() as int),
        consistent_links(parent_of@, children@),
        // each list holds its children in increasing index order
        forall|p: int, a: int, b: int|
            #![trigger children@[p]@[a], children@[p]@[b]]
            0 <= p < parent_of@.len() && 0 <= a < b < children@[p]@.len() ==> children@[p]@[a]
                < children@[p]@[b],
{
    let n = parent_of.len();
    let mut children: Vec<Vec<usize>> = Vec::new();
    let mut i: usize = 0;
    while i < n
        invariant
            i <= n,
            children@.len() == i,
            forall|p: int| 0 <= p < i ==> (#[trigger] children@[p])@ == Seq::<usize>::empty(),
        decreases n - i,
    {
        children.push(Vec::new());
        i = i + 1;
    }
    let mut c: usize = 0;
    while c < n
        invariant
            n == parent_of@.len(),
            links_in_range(parent_of@),
            c <= n,
            children@.len() == n,
            forall|p: int| 0 <= p < n ==> (#[trigger] children@[p])@ == children_upto(parent_of@, p as usize, c as int),
        decreases n - c,
    {
        match parent_of[c] {
            Some(p) => {
                proof {
                    assert(parent_of@[c as int] is Some);
                }
                let mut list: Vec<usize> = Vec::new();
                children.set_and_swap(p, &mut list);
                list.push(c);
                children.set_and_swap(p, &mut list);
            },
            None => {},
        }
        proof {
            assert forall|q: int| 0 <= q < n implies (#[trigger] children@[q])@ == children_upto(parent_of@, q as usize, c + 1) by {
                assert(children_upto(parent_of@, q as usize, c + 1) == children_upto(parent_of@, q as usize, c as int) + if parent_of@[c as int] == Some(q as usize) {
                    seq![c]
                } else {
                    Seq::empty()
                });
            }
        }
        c = c + 1;
    }
    proof {
        assert forall|p: int| 0 <= p < n implies (#[trigger] children@[p])@.no_duplicates() by {
            lemma_children_upto(parent_of@, p as usize, n as int);
        }
        assert forall|p: int, a: int, b: int|
            #![trigger children@[p]@[a], children@[p]@[b]]
            0 <= p < n && 0 <= a < b < children@[p]@.len() implies children@[p]@[a] < children@[p]@[b] by {
            lemma_children_upto(parent_of@, p as usize, n as int);
        }
        assert forall|p: int, k: int| 0 <= p < n && 0 <= k < children@[p]@.len() implies {
            let c = #[trigger] children@[p]@[k];
            &&& c < parent_of@.len()
            &&& parent_of@[c as int] == Some(p as usize)
        } by {
            lemma_children_upto(parent_of@, p as usize, n as int);
            assert(children@[p]@.contains(children@[p]@[k]));
        }
        assert forall|c: int| 0 <= c < n && (#[trigger] parent_of@[c]) is Some implies {
            let p = parent_of@[c]->0;
            &&& p < children@.len()
            &&& children@[p as int]@.contains(c as usize)
        } by {
            let p = parent_of@[c]->0;
            lemma_children_upto(parent_of@, p, n as int);
        }
    }
    children
}

/// A duplicate-free list of indices below `n` that holds every one of them
/// has exactly `n` entries.
pub proof fn lemma_covering_permutation(order: Seq<usize>, n: nat)
    requires
        n <= usize::MAX,
        order.no_duplicates(),
        forall|k: int| 0 <= k < order.len() ==> #[trigger] order[k] < n,
        forall|i: usize| i < n ==> #[trigger] order.contains(i),
    ensures
        order.len() == n,
{
    let s = order.to_set();
    order.unique_seq_to_set();
    let full = Set::new(|i: usize| i < n);
    assert(s =~= full) by {
        assert forall|i: usize| full.contains(i) implies s.contains(i) by {
            assert(order.contains(i));
        }
    }
    lemma_range_set_len(n);
}

proof fn lemma_range_set_len(n: nat)
    requires
        n <= usize::MAX,
    ensures
        Set::new(|i: usize| i < n).len() == n,
        Set::new(|i: usize| i < n).finite(),
    decreases n,
{
    if n == 0 {
        assert(Set::new(|i: usize| i < n) =~= Set::<usize>::empty());
    } else {
        lemma_range_set_len((n - 1) as nat);
        let smaller = Set::new(|i: usize| i < (n - 1) as nat);
        assert(Set::new(|i: usize| i < n) =~= smaller.insert((n - 1) as usize));
    }
}

/// `parent_of` and `children_of` record the same parent links: each child
/// list is free of repeats, every listed child names that parent, and
/// every child with a parent is listed by it.
pub open spec fn consistent_links(parent_of: Seq<Option<usize>>, children_of: Seq<Vec<usize>>) -> bool {
    &&& parent_of.len() == children_of.len()
    &&& forall|p: int| 0 <= p < children_of.len() ==> (#[trigger] children_of[p])@.no_duplicates()
    &&& forall|p: int, k: int|
        0 <= p < children_of.len() && 0 <= k < children_of[p]@.len() ==> {
            let c = #[trigger] children_of[p]@[k];
            &&& c < parent_of.len()
            &&& parent_of[c as int] == Some(p as usize)
        }
    &&& forall|c: int|
        0 <= c < parent_of.len() && (#[trigger] parent_of[c]) is Some ==> {
            let p = parent_of[c]->0;
            &&& p < children_of.len()
            &&& children_of[p as int]@.contains(c as usize)
        }
}

/// Every child of the node at position `k` of `order` occurs before it.
pub open spec fn children_before(order: Seq<usize>, children_of: Seq<Vec<usize>>, k: int) -> bool {
    forall|c: usize| #[trigger] children_of[order[k] as int]@.contains(c) ==> order.subrange(0, k).contains(c)
}

/// The node at position `k` of `order` has a child outside the first `m`
/// positions.
pub open spec fn blocked(order: Seq<usize>, children_of: Seq<Vec<usize>>, k: int, m: int) -> bool {
    exists|c: usize|
        #[trigger] children_of[order[k] as int]@.contains(c) && !order.subrange(0, m).contains(c)
}

/// The first `m` positions of `order` each come after all their children,
/// and every later position waits on a child that is not among them.
pub open spec fn ready_prefix(order: Seq<usize>, children_of: Seq<Vec<usize>>, m: int) -> bool {
    &&& 0 <= m <= order.len()
    &&& forall|k: int| 0 <= k < m ==> #[trigger] children_before(order, children_of, k)
    &&& forall|k: int| m <= k < order.len() ==> #[trigger] blocked(order, children_of, k, m)
}

/// From position `m` on, `order` lists indices in increasing order.
pub open spec fn ascending_from(order: Seq<usize>, m: int) -> bool {
    forall|a: int, b: int| #![trigger order[a], order[b]] m <= a < b < order.len() ==> order[a] < order[b]
}

/// Position `pos` of `order` holds a child of `p`, and every child of `p`
/// occurs at or before it: it is where `p`'s last child comes.
pub open spec fn last_child_at(order: Seq<usize>, ch: Seq<Vec<usize>>, p: usize, pos: int) -> bool {
    &&& 0 <= pos < order.len()
    &&& ch[p as int]@.contains(order[pos])
    &&& forall|c: usize| #[trigger] ch[p as int]@.contains(c) ==> order.subrange(0, pos + 1).contains(c)
}

/// The shape of a leaves-first queue over its first `m` positions: the
/// first `nl` are the leaves, in index order; every later position holds a
/// node with children; and the nodes with children come in the order in
/// which their last child came.
pub open spec fn queue_shape(order: Seq<usize>, ch: Seq<Vec<usize>>, m: int, nl: int) -> bool {
    &&& ready_prefix(order, ch, m)
    &&& 0 <= nl <= m
    &&& forall|a: int| 0 <= a < nl ==> ch[#[trigger] order[a] as int]@.len() == 0
    &&& forall|a: int| nl <= a < order.len() ==> ch[#[trigger] order[a] as int]@.len() > 0
    &&& forall|a: int, b: int| #![trigger order[a], order[b]] 0 <= a < b < nl ==> order[a] < order[b]
    &&& forall|a: int, b: int, pa: int, pb: int|
        #![trigger last_child_at(order, ch, order[a], pa), last_child_at(order, ch, order[b], pb)]
        nl <= a < b < m && last_child_at(order, ch, order[a], pa) && last_child_at(order, ch, order[b], pb)
            ==> pa < pb
}

/// A node's last child comes at one position only.
proof fn lemma_last_child_unique(order: Seq<usize>, ch: Seq<Vec<usize>>, p: usize, p1: int, p2: int)
    requires
        order.no_duplicates(),
        last_child_at(order, ch, p, p1),
        last_child_at(order, ch, p, p2),
    ensures
        p1 == p2,
{
    if p1 < p2 {
        let c = order[p2];
        let sub = order.subrange(0, p1 + 1);
        let q = choose|q: int| 0 <= q < sub.len() && sub[q] == c;
        assert(order[q] == c);
    } else if p2 < p1 {
        let c = order[p1];
        let sub = order.subrange(0, p2 + 1);
        let q = choose|q: int| 0 <= q < sub.len() && sub[q] == c;
        assert(order[q] == c);
    }
}

/// Where a node's last child comes stays so when the order grows.
proof fn lemma_last_child_extend(order: Seq<usize>, ext: Seq<usize>, ch: Seq<Vec<usize>>, p: usize, pos: int)
    requires
        last_child_at(order, ch, p, pos),
        order.len() <= ext.len(),
        ext.subrange(0, order.len() as int) == order,
    ensures
        last_child_at(ext, ch, p, pos),
{
    assert(ext[pos] == order[pos]);
    assert(ext.subrange(0, pos + 1) =~= order.subrange(0, pos + 1));
}

/// Every child of `p` is marked in `processed`.
pub open spec fn children_done(ch: Seq<Vec<usize>>, p: usize, processed: Seq<bool>) -> bool {
    forall|c: usize| #[trigger] ch[p as int]@.contains(c) ==> processed[c as int]
}

/// Every child of `p` occurs in `done`.
pub open spec fn children_in(ch: Seq<Vec<usize>>, p: usize, done: Seq<usize>) -> bool {
    forall|c: usize| #[trigger] ch[p as int]@.contains(c) ==> done.contains(c)
}

/// The parent links form a forest: some rank strictly increases from
/// every child to its parent, so no chain of parents loops back.
pub open spec fn acyclic(parent_of: Seq<Option<usize>>) -> bool {
    exists|rank: spec_fn(usize) -> nat| #[trigger] ranked_by(parent_of, rank)
}

/// `rank` strictly increases from every child to its parent.
pub open spec fn ranked_by(parent_of: Seq<Option<usize>>, rank: spec_fn(usize) -> nat) -> bool {
    forall|c: int|
        0 <= c < parent_of.len() && (#[trigger] parent_of[c]) is Some ==> rank(c as usize) < rank(
            parent_of[c]->0,
        )
}

/// Whether every child in `children` is marked in `processed`.
fn all_children_processed(children: &Vec<usize>, processed: &Vec<bool>) -> (r: bool)
    requires
        forall|k: int| 0 <= k < children@.len() ==> #[trigger] children@[k] < processed@.len(),
    ensures
        r == forall|k: int| 0 <= k < children@.len() ==> processed@[#[trigger] children@[k] as int],
{
    let mut k: usize = 0;
    while k < children.len()
        invariant
            k <= children@.len(),
            forall|j: int| 0 <= j < children@.len() ==> #[trigger] children@[j] < processed@.len(),
            forall|j: int| 0 <= j < k ==> processed@[#[trigger] children@[j] as int],
        decreases children@.len() - k,
    {
        if !processed[children[k]] {
            return false;
        }
        k = k + 1;
    }
    true
}

/// Orders the nodes of a branch forest so that every node comes after all
/// of its children: leaves are taken first, and a parent is queued as soon
/// as its last child has been taken, so the leaves come in index order and
/// the other ready nodes in the order in which their last child came. Nodes
/// that never become ready (which happens only when the links loop) follow
/// at the end in index order.
pub fn leaves_first_order(parent_of: &[Option<usize>], children_of: &[Vec<usize>]) -> (order: Vec<
    usize,
>)
    requires
        consistent_links(parent_of@, children_of@),
    ensures
        is_permutation(order@, parent_of@.len()),
        exists|m: int| #[trigger] ready_prefix(order@, children_of@, m) && ascending_from(order@, m),
        exists|m: int, nl: int| #[trigger] queue_shape(order@, children_of@, m, nl),
        acyclic(parent_of@) ==> forall|k: int|
            0 <= k < order@.len() ==> children_before(order@, children_of@, k),
{
    let n = parent_of.len();
    let ghost ch = children_of@;
    let mut processed: Vec<bool> = Vec::new();
    let mut i: usize = 0;
    while i < n
        invariant
            i <= n,
            processed@.len() == i,
            forall|j: int| 0 <= j < i ==> !processed@[j],
        decreases n - i,
    {
        processed.push(false);
        i = i + 1;
    }
    let mut queue: VecDeque<usize> = VecDeque::new();
    i = 0;
    while i < n
        invariant
            n == parent_of@.len(),
            consistent_links(parent_of@, children_of@),
            ch == children_of@,
            i <= n,
            processed@.len() == n,
            forall|j: int| 0 <= j < n ==> !processed@[j],
            queue@.no_duplicates(),
            forall|k: int| 0 <= k < queue@.len() ==> #[trigger] queue@[k] < i,
            forall|k: int| 0 <= k < queue@.len() ==> ch[#[trigger] queue@[k] as int]@.len() == 0,
            forall|p: usize| #![trigger ch[p as int]] p < i && ch[p as int]@.len() == 0 ==> queue@.contains(p),
            ascending_from(queue@, 0),
        decreases n - i,
    {
        if children_of[i].len() == 0 {
            let ghost prev = queue@;
            queue.push_back(i);
            proof {
                assert forall|a: int, b: int| 0 <= a < queue@.len() && 0 <= b < queue@.len() && a != b implies queue@[a] != queue@[b] by {
                    if a == prev.len() {
                        assert(queue@[b] < i);
                    } else if b == prev.len() {
                        assert(queue@[a] < i);
                    }
                }
                assert forall|a: int, b: int| #![trigger queue@[a], queue@[b]] 0 <= a < b < queue@.len() implies queue@[a] < queue@[b] by {
                    if b == prev.len() {
                        assert(queue@[a] == prev[a]);
                    } else {
                        assert(queue@[a] == prev[a] && queue@[b] == prev[b]);
                    }
                }
                assert forall|p: usize| #![trigger ch[p as int]] p < i + 1 && ch[p as int]@.len() == 0 implies queue@.contains(p) by {
                    if p == i {
                        assert(queue@[prev.len() as int] == p);
                    } else {
                        assert(prev.contains(p));
                        let k = choose|k: int| 0 <= k < prev.len() && prev[k] == p;
                        assert(queue@[k] == p);
                    }
                }
            }
        }
        i = i + 1;
    }
    let ghost mut head: int = 0;
    let ghost mut hist: Seq<usize> = queue@;
    let ghost nl: int = queue@.len() as int;
    let ghost mut trig: Seq<int> = Seq::empty();
    let mut sorted: Vec<usize> = Vec::new();
    proof {
        assert(hist.subrange(0, 0) =~= Seq::<usize>::empty());
        assert forall|p: usize|
            p < n && #[trigger] children_done(ch, p, processed@) implies hist.contains(p) by {
            if ch[p as int]@.len() > 0 {
                assert(ch[p as int]@.contains(ch[p as int]@[0]));
                assert(ch[p as int]@[0] < n);
            }
        }
    }
    while queue.len() > 0
        invariant
            0 <= head,
            sorted@ == hist.subrange(0, head),
            queue@ == hist.subrange(head, hist.len() as int),
            n == parent_of@.len(),
            consistent_links(parent_of@, children_of@),
            ch == children_of@,
            processed@.len() == n,
            head <= hist.len(),
            hist.no_duplicates(),
            forall|k: int| 0 <= k < hist.len() ==> #[trigger] hist[k] < n,
            forall|j: usize| j < n ==> (processed@[j as int] <==> hist.subrange(0, head as int).contains(j)),
            forall|k: int| 0 <= k < hist.len() ==> children_before(hist, ch, k),
            forall|k: int, c: usize|
                0 <= k < hist.len() && #[trigger] ch[hist[k] as int]@.contains(c) ==> processed@[c as int],
            forall|p: usize|
                p < n && #[trigger] children_done(ch, p, processed@) ==> hist.contains(p),
            0 <= nl <= hist.len(),
            forall|a: int| 0 <= a < nl ==> ch[#[trigger] hist[a] as int]@.len() == 0,
            forall|a: int| nl <= a < hist.len() ==> ch[#[trigger] hist[a] as int]@.len() > 0,
            forall|a: int, b: int| #![trigger hist[a], hist[b]] 0 <= a < b < nl ==> hist[a] < hist[b],
            trig.len() == hist.len() - nl,
            forall|t: int| 0 <= t < trig.len() ==> #[trigger] trig[t] < head,
            forall|t: int, u: int| #![trigger trig[t], trig[u]] 0 <= t < u < trig.len() ==> trig[t] < trig[u],
            forall|t: int| 0 <= t < trig.len() ==> last_child_at(hist, ch, hist[nl + t], #[trigger] trig[t]),
        decreases n - head,
    {
        proof {
            lemma_len_bound(hist, n as nat);
        }
        let ghost front = head;
        let idx = queue.pop_front().unwrap();
        proof {
            assert(idx == hist[front]);
            head = head + 1;
        }
        sorted.push(idx);
        let ghost before = hist;
        let ghost pbefore = processed@;
        proof {
            assert(!pbefore[idx as int]) by {
                if hist.subrange(0, head - 1).contains(idx) {
                    let sub = hist.subrange(0, head - 1);
                    let k = choose|k: int| 0 <= k < sub.len() && sub[k] == idx;
                    assert(hist[k] == hist[head - 1]);
                }
            }
            assert(hist.subrange(0, head as int) =~= hist.subrange(0, head - 1).push(idx));
        }
        processed.set(idx, true);
        let ghost pafter = processed@;
        proof {
            assert forall|j: usize| j < n implies (processed@[j as int] <==> hist.subrange(0, head as int).contains(j)) by {
                let s1 = hist.subrange(0, head - 1);
                let s2 = hist.subrange(0, head as int);
                if s2.contains(j) && j != idx {
                    let q = choose|q: int| 0 <= q < s2.len() && s2[q] == j;
                    assert(s1[q] == j);
                }
                if s1.contains(j) {
                    let q = choose|q: int| 0 <= q < s1.len() && s1[q] == j;
                    assert(s2[q] == j);
                }
                if j == idx {
                    assert(s2[head - 1] == j);
                }
            }
        }
        match parent_of[idx] {
            Some(parent) => {
                proof {
                    assert(parent_of@[idx as int] is Some);
                }
                if !processed[parent] && all_children_processed(&children_of[parent], &processed) {
                    proof {
                        assert(!hist.contains(parent)) by {
                            if hist.contains(parent) {
                                let k = choose|k: int| 0 <= k < hist.len() && hist[k] == parent;
                                assert(ch[parent as int]@.contains(idx));
                                assert(pbefore[idx as int]);
                            }
                        }
                    }
                    queue.push_back(parent);
                    proof {
                        let old_hist = hist;
                        let old_trig = trig;
                        hist = hist.push(parent);
                        trig = trig.push(front);
                        assert(hist.subrange(0, old_hist.len() as int) =~= old_hist);
                        assert forall|t: int| 0 <= t < trig.len() implies last_child_at(hist, ch, hist[nl + t], #[trigger] trig[t]) by {
                            if t < old_trig.len() {
                                assert(trig[t] == old_trig[t]);
                                assert(hist[nl + t] == old_hist[nl + t]);
                                lemma_last_child_extend(old_hist, hist, ch, old_hist[nl + t], old_trig[t]);
                            } else {
                                assert(hist[nl + t] == parent);
                                assert(hist[front] == idx);
                                assert(ch[parent as int]@.contains(idx));
                                assert forall|c: usize| #[trigger] ch[parent as int]@.contains(c) implies hist.subrange(0, front + 1).contains(c) by {
                                    let j = choose|j: int| 0 <= j < ch[parent as int]@.len() && ch[parent as int]@[j] == c;
                                    assert(processed@[c as int]);
                                    let sub = old_hist.subrange(0, head);
                                    assert(sub.contains(c));
                                    let q = choose|q: int| 0 <= q < sub.len() && sub[q] == c;
                                    assert(hist.subrange(0, front + 1)[q] == c);
                                }
                            }
                        }
                    }
                    proof {
                        assert forall|a: int, b: int| 0 <= a < hist.len() && 0 <= b < hist.len() && a != b implies hist[a] != hist[b] by {
                            if a == before.len() {
                                assert(before.contains(hist[b]));
                            } else if b == before.len() {
                                assert(before.contains(hist[a]));
                            }
                        }
                        assert(hist.subrange(0, head as int) =~= before.subrange(0, head as int));
                        assert forall|k: int| 0 <= k < hist.len() implies children_before(hist, ch, k) by {
                            if k < before.len() {
                                assert(hist.subrange(0, k) =~= before.subrange(0, k));
                                assert(children_before(before, ch, k));
                            } else {
                                assert forall|c: usize| #[trigger] ch[hist[k] as int]@.contains(c) implies hist.subrange(0, k).contains(c) by {
                                    let j = choose|j: int| 0 <= j < ch[parent as int]@.len() && ch[parent as int]@[j] == c;
                                    assert(processed@[c as int]);
                                    assert(c < n);
                                    let sub = hist.subrange(0, head as int);
                                    let q = choose|q: int| 0 <= q < sub.len() && sub[q] == c;
                                    assert(sub[q] == hist[q]);
                                    assert(q < k);
                                    assert(hist.subrange(0, k)[q] == c);
                                }
                            }
                        }
                        assert forall|k: int, c: usize|
                            0 <= k < hist.len() && #[trigger] ch[hist[k] as int]@.contains(c) implies processed@[c as int] by {
                            if k < before.len() {
                                assert(before[k] == hist[k]);
                                assert(pbefore[c as int]);
                            } else {
                                let j = choose|j: int| 0 <= j < ch[parent as int]@.len() && ch[parent as int]@[j] == c;
                            }
                        }
                        assert forall|p: usize|
                            p < n && #[trigger] children_done(ch, p, processed@) implies hist.contains(p) by {
                            if p == parent {
                                assert(hist[before.len() as int] == p);
                            } else {
                                assert forall|c: usize| #[trigger] ch[p as int]@.contains(c) implies pbefore[c as int] by {
                                    if c == idx {
                                        let j = choose|j: int| 0 <= j < ch[p as int]@.len() && ch[p as int]@[j] == c;
                                        assert(parent_of@[c as int] == Some(p));
                                    }
                                }
                                assert(children_done(ch, p, pbefore));
                                assert(before.contains(p));
                                let k = choose|k: int| 0 <= k < before.len() && before[k] == p;
                                assert(hist[k] == p);
                            }
                        }
                    }
                } else {
                    proof {
                        assert forall|p: usize|
                            p < n && #[trigger] children_done(ch, p, processed@) implies hist.contains(p) by {
                            if p == parent {
                                if !pafter[parent as int] {
                                    assert forall|k: int| 0 <= k < ch[parent as int]@.len() implies processed@[#[trigger] ch[parent as int]@[k] as int] by {
                                        assert(ch[parent as int]@.contains(ch[parent as int]@[k]));
                                    }
                                }
                                assert(processed@[parent as int]);
                                let sub = hist.subrange(0, head as int);
                                let q = choose|q: int| 0 <= q < sub.len() && sub[q] == parent;
                                assert(hist[q] == parent);
                            } else {
                                assert forall|c: usize| #[trigger] ch[p as int]@.contains(c) implies pbefore[c as int] by {
                                    if c == idx {
                                        let j = choose|j: int| 0 <= j < ch[p as int]@.len() && ch[p as int]@[j] == c;
                                        assert(parent_of@[c as int] == Some(p));
                                    }
                                }
                                assert(children_done(ch, p, pbefore));
                            }
                        }
                    }
                }
            },
            None => {
                proof {
                    assert forall|p: usize|
                        p < n && #[trigger] children_done(ch, p, processed@) implies hist.contains(p) by {
                        assert forall|c: usize| #[trigger] ch[p as int]@.contains(c) implies pbefore[c as int] by {
                            if c == idx {
                                let j = choose|j: int| 0 <= j < ch[p as int]@.len() && ch[p as int]@[j] == c;
                                assert(parent_of@[c as int] == Some(p));
                            }
                        }
                        assert(children_done(ch, p, pbefore));
                    }
                }
            },
        }
    }
    proof {
        assert(head == hist.len());
        assert(hist.subrange(0, head as int) =~= hist);
        assert(sorted@ =~= hist);
    }
    let ghost m = hist.len() as int;
    let ghost done = hist;
    let mut order = sorted;
    i = 0;
    while i < n
        invariant
            n == parent_of@.len(),
            consistent_links(parent_of@, children_of@),
            ch == children_of@,
            processed@.len() == n,
            i <= n,
            m == done.len(),
            order@.subrange(0, m) == done,
            m <= order@.len(),
            done.no_duplicates(),
            order@.no_duplicates(),
            forall|k: int| 0 <= k < order@.len() ==> #[trigger] order@[k] < n,
            forall|j: usize| j < n ==> (processed@[j as int] <==> done.contains(j)),
            forall|k: int| m <= k < order@.len() ==> #[trigger] order@[k] < i && !processed@[order@[k] as int],
            ascending_from(order@, m),
            forall|j: usize| j < i ==> #[trigger] order@.contains(j),
            forall|k: int| 0 <= k < m ==> children_before(done, ch, k),
            forall|p: usize|
                p < n && #[trigger] children_done(ch, p, processed@) ==> done.contains(p),
            0 <= nl <= m,
            forall|a: int| 0 <= a < nl ==> ch[#[trigger] done[a] as int]@.len() == 0,
            forall|a: int| nl <= a < m ==> ch[#[trigger] done[a] as int]@.len() > 0,
            forall|a: int, b: int| #![trigger done[a], done[b]] 0 <= a < b < nl ==> done[a] < done[b],
            trig.len() == m - nl,
            forall|t: int, u: int| #![trigger trig[t], trig[u]] 0 <= t < u < trig.len() ==> trig[t] < trig[u],
            forall|t: int| 0 <= t < trig.len() ==> last_child_at(done, ch, done[nl + t], #[trigger] trig[t]),
        decreases n - i,
    {
        if !processed[i] {
            let ghost prev = order@;
            order.push(i);
            proof {
                assert(!prev.contains(i)) by {
                    if prev.contains(i) {
                        let k = choose|k: int| 0 <= k < prev.len() && prev[k] == i;
                        if k < m {
                            assert(prev.subrange(0, m)[k] == prev[k]);
                            assert(done[k] == i);
                            assert(done.contains(i));
                        } else {
                            assert(prev[k] < i);
                        }
                    }
                }
                assert forall|a: int, b: int| 0 <= a < order@.len() && 0 <= b < order@.len() && a != b implies order@[a] != order@[b] by {
                    if a == prev.len() {
                        assert(prev.contains(order@[b]));
                    } else if b == prev.len() {
                        assert(prev.contains(order@[a]));
                    }
                }
                assert(order@.subrange(0, m) =~= prev.subrange(0, m));
                assert forall|a: int, b: int| #![trigger order@[a], order@[b]] m <= a < b < order@.len() implies order@[a] < order@[b] by {
                    if b == prev.len() {
                        assert(order@[a] == prev[a]);
                    } else {
                        assert(order@[a] == prev[a] && order@[b] == prev[b]);
                    }
                }
                assert forall|j: usize| j < i + 1 implies #[trigger] order@.contains(j) by {
                    if j == i {
                        assert(order@[prev.len() as int] == j);
                    } else {
                        assert(prev.contains(j));
                        let k = choose|k: int| 0 <= k < prev.len() && prev[k] == j;
                        assert(order@[k] == j);
                    }
                }
            }
        } else {
            proof {
                assert(processed@[i as int]);
                assert(done.contains(i));
                let k = choose|k: int| 0 <= k < m && done[k] == i;
                assert(order@.subrange(0, m)[k] == i);
                assert(order@[k] == i);
                assert forall|j: usize| j < i + 1 implies #[trigger] order@.contains(j) by {
                    if j == i {
                        assert(order@[k] == j);
                    }
                }
            }
        }
        i = i + 1;
    }
    proof {
        lemma_covering_permutation(order@, n as nat);
        assert forall|k: int| 0 <= k < m implies children_before(order@, ch, k) by {
            assert(children_before(done, ch, k));
            assert(order@[k] == done[k]);
            assert(order@.subrange(0, k) =~= done.subrange(0, k));
        }
        assert forall|k: int| m <= k < order@.len() implies #[trigger] blocked(order@, ch, k, m) by {
            let p = order@[k];
            assert(!processed@[p as int]);
            assert(!done.contains(p));
            assert(!children_done(ch, p, processed@));
            let c = choose|c: usize| #[trigger] ch[p as int]@.contains(c) && !processed@[c as int];
            assert(!done.contains(c));
            assert(order@.subrange(0, m) == done);
        }
        assert(ready_prefix(order@, ch, m));
        assert(ready_prefix(order@, ch, m) && ascending_from(order@, m));
        let o = order@;
        assert forall|a: int| 0 <= a < nl implies ch[#[trigger] o[a] as int]@.len() == 0 by {
            assert(o.subrange(0, m)[a] == o[a]);
        }
        assert forall|a: int| nl <= a < o.len() implies ch[#[trigger] o[a] as int]@.len() > 0 by {
            if a < m {
                assert(o.subrange(0, m)[a] == o[a]);
            } else {
                let p = o[a];
                assert(!processed@[p as int]);
                if ch[p as int]@.len() == 0 {
                    assert(children_done(ch, p, processed@));
                }
            }
        }
        assert forall|a: int, b: int| #![trigger o[a], o[b]] 0 <= a < b < nl implies o[a] < o[b] by {
            assert(o.subrange(0, m)[a] == o[a]);
            assert(o.subrange(0, m)[b] == o[b]);
        }
        assert forall|a: int, b: int, pa: int, pb: int|
            #![trigger last_child_at(o, ch, o[a], pa), last_child_at(o, ch, o[b], pb)]
            nl <= a < b < m && last_child_at(o, ch, o[a], pa) && last_child_at(o, ch, o[b], pb) implies pa < pb by {
            assert(o.subrange(0, m)[a] == o[a]);
            assert(o.subrange(0, m)[b] == o[b]);
            assert(last_child_at(done, ch, done[nl + (a - nl)], trig[a - nl]));
            assert(last_child_at(done, ch, done[nl + (b - nl)], trig[b - nl]));
            lemma_last_child_extend(done, o, ch, o[a], trig[a - nl]);
            lemma_last_child_extend(done, o, ch, o[b], trig[b - nl]);
            lemma_last_child_unique(o, ch, o[a], pa, trig[a - nl]);
            lemma_last_child_unique(o, ch, o[b], pb, trig[b - nl]);
        }
        assert(queue_shape(o, ch, m, nl));
        if acyclic(parent_of@) {
            let rank = choose|rank: spec_fn(usize) -> nat| #[trigger] ranked_by(parent_of@, rank);
            assert forall|p: usize| p < n && #[trigger] children_in(ch, p, done) implies done.contains(p) by {
                assert forall|c: usize| #[trigger] ch[p as int]@.contains(c) implies processed@[c as int] by {
                    let j = choose|j: int| 0 <= j < ch[p as int]@.len() && ch[p as int]@[j] == c;
                    assert(c < n);
                }
                assert(children_done(ch, p, processed@));
            }
            assert forall|j: usize| j < n implies done.contains(j) by {
                lemma_ranked_all_done(parent_of@, ch, done, rank, rank(j) + 1);
            }
            assert(m == order@.len()) by {
                if m < order@.len() {
                    assert(!processed@[order@[m] as int]);
                    assert(done.contains(order@[m]));
                }
            }
            assert forall|k: int| 0 <= k < order@.len() implies children_before(order@, ch, k) by {}
        }
    }
    order
}

/// A duplicate-free list of indices below `n` has at most `n` entries.
proof fn lemma_len_bound(s: Seq<usize>, n: nat)
    requires
        n <= usize::MAX,
        s.no_duplicates(),
        forall|k: int| 0 <= k < s.len() ==> #[trigger] s[k] < n,
    ensures
        s.len() <= n,
{
    s.unique_seq_to_set();
    lemma_range_set_len(n);
    vstd::set_lib::lemma_len_subset(s.to_set(), Set::new(|i: usize| i < n));
}

/// When every node all of whose children are done is done itself, and
/// ranks grow from child to parent, every node below rank `r` is done.
proof fn lemma_ranked_all_done(
    parent_of: Seq<Option<usize>>,
    ch: Seq<Vec<usize>>,
    done: Seq<usize>,
    rank: spec_fn(usize) -> nat,
    r: nat,
)
    requires
        consistent_links(parent_of, ch),
        ranked_by(parent_of, rank),
        forall|p: usize|
            p < parent_of.len() && #[trigger] children_in(ch, p, done) ==> done.contains(p),
    ensures
        forall|j: usize| j < parent_of.len() && rank(j) < r ==> done.contains(j),
    decreases r,
{
    if r > 0 {
        lemma_ranked_all_done(parent_of, ch, done, rank, (r - 1) as nat);
        assert forall|j: usize| j < parent_of.len() && rank(j) < r implies done.contains(j) by {
            if rank(j) == r - 1 {
                assert forall|c: usize| #[trigger] ch[j as int]@.contains(c) implies done.contains(c) by {
                    let k = choose|k: int| 0 <= k < ch[j as int]@.len() && ch[j as int]@[k] == c;
                    assert(parent_of[c as int] == Some(j));
                }
                assert(children_in(ch, j, done));
            }
        }
    }
}

} // verus!
