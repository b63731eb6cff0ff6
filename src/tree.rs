use vstd::prelude::*;
use crate::cell::{BorrowState, Cell};
use crate::shared_ptr::{apply_op, CountOp, Heap, RecordView, SharedPtr, WeakPtr};

verus! {

/// A tree node: it owns its children through strong pointers and observes its
/// parent through a weak pointer, so that ownership runs one way only.
pub struct Node {
    pub value: i32,
    pub parent: Cell<Option<WeakPtr<Node>>>,
    pub children: Cell<Vec<SharedPtr<Node>>>,
}

/// The record indices of a node's children, in order.
pub open spec fn child_ids(n: Node) -> Seq<nat> {
    n.children.value()@.map_values(|c: SharedPtr<Node>| c.id())
}

/// How many times `j` occurs in `s`.
pub open spec fn count_id(s: Seq<nat>, j: nat) -> nat
    decreases s.len(),
{
    if s.len() == 0 {
        0
    } else {
        count_id(s.drop_last(), j) + if s.last() == j {
            1nat
        } else {
            0nat
        }
    }
}

/// The node in record `id` is alive, and each of its children has more strong
/// pointers than the node itself holds to it: it is also owned from elsewhere.
pub open spec fn children_owned_elsewhere(h: Seq<RecordView<Node>>, id: int) -> bool {
    &&& h[id].payload is Some
    &&& forall|j: int|
        0 <= j < h.len() && count_id(child_ids(h[id].payload->0), j as nat) > 0 ==> (#[trigger] h[j]).strong
            > count_id(child_ids(h[id].payload->0), j as nat)
}

proof fn lemma_count_id_take(s: Seq<nat>, k: int, j: nat)
    requires
        0 <= k < s.len(),
    ensures
        count_id(s.take(k + 1), j) == count_id(s.take(k), j) + if s[k] == j {
            1nat
        } else {
            0nat
        },
{
    assert(s.take(k + 1).drop_last() =~= s.take(k));
    assert(s.take(k + 1).last() == s[k]);
}

proof fn lemma_count_id_prefix(s: Seq<nat>, m: int, j: nat)
    requires
        0 <= m <= s.len(),
    ensures
        count_id(s.take(m), j) <= count_id(s, j),
    decreases s.len(),
{
    if m == s.len() {
        assert(s.take(m) =~= s);
    } else {
        assert(s.take(m) =~= s.drop_last().take(m));
        lemma_count_id_prefix(s.drop_last(), m, j);
    }
}

/// A node at rest inside a heap of `len` records: its cells are not borrowed and
/// every handle it holds refers to a record of the heap.
pub open spec fn node_at_rest(n: Node, len: nat) -> bool {
    &&& n.parent.state() == BorrowState::Unborrowed
    &&& n.children.state() == BorrowState::Unborrowed
    &&& (forall|k: int| 0 <= k < child_ids(n).len() ==> #[trigger] child_ids(n)[k] < len)
    &&& (n.parent.value() matches Some(w) ==> (w.target() is Some ==> w.target()->0 < len))
}

/// Every live node of the heap is at rest.
pub open spec fn tree_wf(heap: &Heap<Node>) -> bool {
    &&& heap.wf()
    &&& forall|i: int|
        0 <= i < heap@.len() && #[trigger] heap@[i].payload is Some ==> node_at_rest(
            heap@[i].payload->0,
            heap@.len(),
        )
}

/// The number of records whose payload is still alive.
pub open spec fn live_count<T>(s: Seq<RecordView<T>>) -> nat
    decreases s.len(),
{
    if s.len() == 0 {
        0
    } else {
        live_count(s.drop_last()) + if s.last().payload is Some {
            1nat
        } else {
            0nat
        }
    }
}

/// `b` comes from `a` by destroying payloads only, and every payload still alive is unchanged.
pub open spec fn only_destroyed<T>(a: Seq<RecordView<T>>, b: Seq<RecordView<T>>) -> bool {
    &&& a.len() == b.len()
    &&& forall|i: int|
        0 <= i < a.len() ==> (#[trigger] b[i]).payload is None || b[i].payload == a[i].payload
    &&& forall|i: int| 0 <= i < a.len() ==> (#[trigger] b[i]).strong <= a[i].strong
    &&& forall|i: int| 0 <= i < a.len() ==> (#[trigger] b[i]).weak <= a[i].weak
}

proof fn lemma_live_count_monotone<T>(a: Seq<RecordView<T>>, b: Seq<RecordView<T>>)
    requires
        a.len() == b.len(),
        forall|i: int| 0 <= i < a.len() ==> (#[trigger] b[i]).payload is Some ==> a[i].payload is Some,
    ensures
        live_count(b) <= live_count(a),
    decreases a.len(),
{
    if a.len() > 0 {
        let (pa, pb) = (a.drop_last(), b.drop_last());
        assert forall|i: int| 0 <= i < pa.len() && (#[trigger] pb[i]).payload is Some
            implies pa[i].payload is Some by {
            assert(pb[i] == b[i] && pa[i] == a[i]);
        }
        lemma_live_count_monotone(pa, pb);
        assert(b.last() == b[b.len() - 1]);
    }
}

proof fn lemma_live_count_drops<T>(a: Seq<RecordView<T>>, b: Seq<RecordView<T>>, k: int)
    requires
        a.len() == b.len(),
        forall|i: int| 0 <= i < a.len() ==> (#[trigger] b[i]).payload is Some ==> a[i].payload is Some,
        0 <= k < a.len(),
        a[k].payload is Some,
        b[k].payload is None,
    ensures
        live_count(b) < live_count(a),
    decreases a.len(),
{
    let (pa, pb) = (a.drop_last(), b.drop_last());
    assert forall|i: int| 0 <= i < pa.len() && (#[trigger] pb[i]).payload is Some
        implies pa[i].payload is Some by {
        assert(pb[i] == b[i] && pa[i] == a[i]);
    }
    if k == a.len() - 1 {
        lemma_live_count_monotone(pa, pb);
    } else {
        lemma_live_count_drops(pa, pb, k);
        assert(b.last() == b[b.len() - 1]);
    }
}

/// The node held by record `i`.
pub open spec fn node_of(h: Seq<RecordView<Node>>, i: int) -> Node {
    h[i].payload->0
}

impl Node {
    /// A node with no parent and no children.
    pub fn new(value: i32) -> (n: Node)
        ensures
            n.value == value,
            n.parent.value() is None,
            child_ids(n).len() == 0,
            n.parent.state() == BorrowState::Unborrowed,
            n.children.state() == BorrowState::Unborrowed,
    {
        let n = Node { value, parent: Cell::new(None), children: Cell::new(Vec::new()) };
        assert(child_ids(n) =~= Seq::<nat>::empty());
        n
    }
}

/// Allocates a node with no parent and no children.
pub fn new_node(heap: &mut Heap<Node>, value: i32) -> (p: SharedPtr<Node>)
    requires
        tree_wf(old(heap)),
    ensures
        tree_wf(final(heap)),
        p.id() == old(heap)@.len(),
        final(heap)@.len() == old(heap)@.len() + 1,
        forall|j: int| 0 <= j < old(heap)@.len() ==> #[trigger] final(heap)@[j] == old(heap)@[j],
        final(heap)@[p.id() as int].strong == 1,
        final(heap)@[p.id() as int].weak == 0,
        final(heap)@[p.id() as int].payload is Some,
        node_of(final(heap)@, p.id() as int).value == value,
        node_of(final(heap)@, p.id() as int).parent.value() is None,
        child_ids(node_of(final(heap)@, p.id() as int)).len() == 0,
{
    let n = Node::new(value);
    SharedPtr::new(heap, n)
}

/// Makes `child` a child of `parent`: the child observes its parent through a
/// weak pointer (the parent's weak count grows by one), and the parent owns the
/// child through a strong pointer added at the end of its list (the child's
/// strong count grows by one). Nothing else changes.
pub fn attach_child(heap: &mut Heap<Node>, parent: &SharedPtr<Node>, child: &SharedPtr<Node>)
    requires
        tree_wf(old(heap)),
        parent.id() < old(heap)@.len(),
        child.id() < old(heap)@.len(),
        parent.id() != child.id(),
        old(heap)@[parent.id() as int].strong > 0,
        old(heap)@[parent.id() as int].weak < usize::MAX,
        old(heap)@[child.id() as int].strong > 0,
        old(heap)@[child.id() as int].strong < usize::MAX,
        node_of(old(heap)@, child.id() as int).parent.value() is None,
    ensures
        tree_wf(final(heap)),
        final(heap)@.len() == old(heap)@.len(),
        forall|j: int|
            0 <= j < old(heap)@.len() && j != parent.id() && j != child.id() ==> #[trigger] final(heap)@[j]
                == old(heap)@[j],
        final(heap)@[child.id() as int].strong == old(heap)@[child.id() as int].strong + 1,
        final(heap)@[child.id() as int].weak == old(heap)@[child.id() as int].weak,
        node_of(final(heap)@, child.id() as int).value == node_of(old(heap)@, child.id() as int).value,
        child_ids(node_of(final(heap)@, child.id() as int)) == child_ids(node_of(old(heap)@, child.id() as int)),
        node_of(final(heap)@, child.id() as int).parent.value() matches Some(w) && w.target() == Some(parent.id()),
        final(heap)@[parent.id() as int].strong == old(heap)@[parent.id() as int].strong,
        final(heap)@[parent.id() as int].weak == old(heap)@[parent.id() as int].weak + 1,
        node_of(final(heap)@, parent.id() as int).value == node_of(old(heap)@, parent.id() as int).value,
        node_of(final(heap)@, parent.id() as int).parent == node_of(old(heap)@, parent.id() as int).parent,
        child_ids(node_of(final(heap)@, parent.id() as int)) == child_ids(node_of(old(heap)@, parent.id() as int)).push(child.id()),
{
    let ghost len = heap@.len();
    let w = parent.downgrade(heap);
    let c = child.clone_strong(heap);
    assert(tree_wf(heap));
    let ghost h1 = heap@;
    assert(h1[child.id() as int].payload is Some);
    assert(node_at_rest(node_of(h1, child.id() as int), len));
    let n = child.get_mut(heap);
    let g = n.parent.borrow_mut();
    let _none = n.parent.replace(&g, Some(w));
    n.parent.release_write(g);
    assert(heap.wf());
    assert(node_of(heap@, child.id() as int).children == node_of(h1, child.id() as int).children);
    assert(node_at_rest(node_of(heap@, child.id() as int), len));
    assert forall|i: int| 0 <= i < heap@.len() && #[trigger] heap@[i].payload is Some implies node_at_rest(
        heap@[i].payload->0,
        heap@.len(),
    ) by {
        if i != child.id() {
            assert(heap@[i] == h1[i]);
        }
    }
    let ghost h2 = heap@;
    assert(h2[parent.id() as int].payload is Some);
    assert(node_at_rest(node_of(h2, parent.id() as int), len));
    let n = parent.get_mut(heap);
    let ghost before = child_ids(*n);
    let g = n.children.borrow_mut();
    n.children.write(&g).push(c);
    n.children.release_write(g);
    assert(child_ids(*n) =~= before.push(child.id()));
    assert(heap.wf());
    assert(node_at_rest(node_of(heap@, parent.id() as int), len));
    assert forall|i: int| 0 <= i < heap@.len() && #[trigger] heap@[i].payload is Some implies node_at_rest(
        heap@[i].payload->0,
        heap@.len(),
    ) by {
        if i != parent.id() {
            assert(heap@[i] == h2[i]);
        }
    }
}

/// The record that the parent link of node `i` observes, if it has one.
pub open spec fn parent_link(h: Seq<RecordView<Node>>, i: int) -> Option<nat> {
    match node_of(h, i).parent.value() {
        Some(w) => w.target(),
        None => None,
    }
}

/// Upgrades the parent link of `node`: a strong pointer to its parent while the
/// parent is alive (its strong count then grows by one), else `None`.
pub fn parent_of(heap: &mut Heap<Node>, node: &SharedPtr<Node>) -> (r: Option<SharedPtr<Node>>)
    requires
        tree_wf(old(heap)),
        node.id() < old(heap)@.len(),
        old(heap)@[node.id() as int].strong > 0,
        parent_link(old(heap)@, node.id() as int) matches Some(t) ==> old(heap)@[t as int].strong
            < usize::MAX,
    ensures
        tree_wf(final(heap)),
        r is Some <==> (parent_link(old(heap)@, node.id() as int) matches Some(t) && old(
            heap,
        )@[t as int].strong > 0),
        r matches Some(q) ==> parent_link(old(heap)@, node.id() as int) == Some(q.id()),
        final(heap)@ == (match parent_link(old(heap)@, node.id() as int) {
            Some(t) => old(heap)@.update(t as int, apply_op(old(heap)@[t as int], CountOp::Upgrade)),
            None => old(heap)@,
        }),
{
    let ghost h0 = heap@;
    let ghost id = node.id() as int;
    let ghost n0 = node_of(h0, id);
    assert(h0[id].payload is Some);
    assert(node_at_rest(n0, h0.len()));
    let n = node.get_mut(heap);
    let g = n.parent.borrow_mut();
    let link = n.parent.replace(&g, None);
    n.parent.release_write(g);
    let ghost h1 = heap@;
    assert(heap.wf());
    let r = match &link {
        Some(w) => w.upgrade(heap),
        None => None,
    };
    let ghost h2 = heap@;
    assert(h2[id].strong > 0);
    let n = node.get_mut(heap);
    let g = n.parent.borrow_mut();
    let _none = n.parent.replace(&g, link);
    n.parent.release_write(g);
    proof {
        Cell::lemma_ext_equal(node_of(heap@, id).parent, n0.parent);
        assert(node_of(heap@, id) == n0);
        let expected = match parent_link(h0, id) {
            Some(t) => h0.update(t as int, apply_op(h0[t as int], CountOp::Upgrade)),
            None => h0,
        };
        assert(heap@ =~= expected);
    }
    r
}

/// Releases a strong pointer to a node. When it was the last one, the node is
/// destroyed: the weak pointer to its parent is released, and then each strong
/// pointer to a child, which may destroy that child in turn. A node referred to
/// only weakly, as a parent is by its children, is thereby never kept alive.
pub fn release_node(heap: &mut Heap<Node>, p: SharedPtr<Node>)
    requires
        tree_wf(old(heap)),
        p.id() < old(heap)@.len(),
    ensures
        tree_wf(final(heap)),
        only_destroyed(old(heap)@, final(heap)@),
        old(heap)@[p.id() as int].strong != 1 ==> final(heap)@ == old(heap)@.update(
            p.id() as int,
            apply_op(old(heap)@[p.id() as int], CountOp::ReleaseStrong),
        ),
        old(heap)@[p.id() as int].strong == 1 ==> final(heap)@[p.id() as int].strong == 0
            && final(heap)@[p.id() as int].payload is None,
        old(heap)@[p.id() as int].strong == 1 && children_owned_elsewhere(old(heap)@, p.id() as int)
            ==> forall|j: int|
            0 <= j < old(heap)@.len() && count_id(
                child_ids(old(heap)@[p.id() as int].payload->0),
                j as nat,
            ) > 0 ==> (#[trigger] final(heap)@[j]).strong + count_id(
                child_ids(old(heap)@[p.id() as int].payload->0),
                j as nat,
            ) == old(heap)@[j].strong && final(heap)@[j].payload == old(heap)@[j].payload,
    decreases live_count(old(heap)@),
{
    let ghost h0 = heap@;
    let ghost id = p.id() as int;
    match p.release(heap) {
        None => {},
        Some(node) => {
            assert(h0[id].payload is Some);
            let ghost hr = heap@;
            proof {
                lemma_live_count_drops(h0, hr, id);
            }
            assert(node_at_rest(node, h0.len()));
            let ghost ids = child_ids(node);
            let ghost elsewhere = children_owned_elsewhere(h0, id);
            let Node { value: _, parent, children } = node;
            let up = parent.into_inner();
            match up {
                Some(w) => w.release(heap),
                None => {},
            }
            let ghost h1 = heap@;
            let mut kids = children.into_inner();
            assert(only_destroyed(h0, h1));
            proof {
                lemma_live_count_monotone(hr, h1);
            }
            assert forall|k: int| 0 <= k < kids@.len() implies #[trigger] kids@[k].id() < heap@.len() by {
                assert(kids@[k].id() == ids[k]);
            }
            assert(kids@.map_values(|c: SharedPtr<Node>| c.id()) =~= ids.take(kids@.len() as int));
            assert forall|j: int|
                elsewhere && 0 <= j < h0.len() && count_id(ids, j as nat) > 0 implies (#[trigger] heap@[j]).strong
                    + count_id(ids, j as nat) == h0[j].strong + count_id(
                    ids.take(kids@.len() as int),
                    j as nat,
                ) && heap@[j].payload == h0[j].payload by {
                assert(ids.take(kids@.len() as int) =~= ids);
                assert(h0[j].strong > 1);
            }
            while kids.len() > 0
                invariant
                    tree_wf(heap),
                    only_destroyed(h0, heap@),
                    h0 == old(heap)@,
                    ids == child_ids(h0[id].payload->0),
                    elsewhere == children_owned_elsewhere(h0, id),
                    0 <= id < heap@.len(),
                    heap@[id].strong == 0,
                    heap@[id].payload is None,
                    live_count(heap@) < live_count(h0),
                    forall|k: int| 0 <= k < kids@.len() ==> #[trigger] kids@[k].id() < heap@.len(),
                    kids@.len() <= ids.len(),
                    kids@.map_values(|c: SharedPtr<Node>| c.id()) == ids.take(kids@.len() as int),
                    forall|j: int|
                        elsewhere && 0 <= j < h0.len() && count_id(ids, j as nat) > 0 ==> (#[trigger] heap@[j]).strong
                            + count_id(ids, j as nat) == h0[j].strong + count_id(
                            ids.take(kids@.len() as int),
                            j as nat,
                        ) && heap@[j].payload == h0[j].payload,
                decreases kids.len(),
            {
                let ghost k = kids@.len() - 1;
                let ghost cid = ids[k];
                proof {
                    assert(kids@[k].id() == ids.take(kids@.len() as int)[k]);
                    assert forall|j: int| 0 <= j < h0.len() implies count_id(ids.take(k + 1), j as nat)
                        == #[trigger] count_id(ids.take(k), j as nat) + if ids[k] == j as nat {
                        1nat
                    } else {
                        0nat
                    } by {
                        lemma_count_id_take(ids, k, j as nat);
                    }
                }
                let c = kids.pop().unwrap();
                let ghost before = heap@;
                assert(c.id() == cid);
                proof {
                    if elsewhere {
                        assert(ids.take(k + 1) =~= ids.take(kids@.len() as int + 1));
                        assert(count_id(ids.take(k + 1), cid) > 0);
                        lemma_count_id_prefix(ids, k + 1, cid);
                        assert((cid as int) < h0.len());
                        assert(ids == child_ids(h0[id].payload->0));
                        assert(h0[cid as int].strong > count_id(ids, cid));
                        assert(heap@[cid as int].strong + count_id(ids, cid) == h0[cid as int].strong
                            + count_id(ids.take(k + 1), cid));
                        assert(heap@[cid as int].strong > 1);
                    }
                }
                release_node(heap, c);
                proof {
                    lemma_live_count_monotone(before, heap@);
                    assert(kids@.map_values(|c: SharedPtr<Node>| c.id()) =~= ids.take(kids@.len() as int));
                }
            }
        },
    }
}

/// Strong and weak counts seen while a leaf is attached to a branch that is then
/// released.
#[derive(Debug, Clone, Copy, PartialEq, Eq)]
pub struct TreeCounts {
    /// The leaf's (strong, weak) counts right after it is allocated.
    pub leaf_initial: (usize, usize),
    /// The branch's counts once the leaf is its child.
    pub branch: (usize, usize),
    /// The leaf's counts once it is the branch's child.
    pub leaf_attached: (usize, usize),
    /// Whether the leaf's parent link still upgraded after the branch was released.
    pub parent_alive: bool,
    /// The leaf's counts after the branch was released.
    pub leaf_final: (usize, usize),
}

/// Builds a leaf, gives it a branch as parent, releases the branch and reports
/// the counts along the way: the branch is destroyed although the leaf still
/// observes it, and the leaf survives with one owner.
pub fn tree() -> (c: TreeCounts)
    ensures
        c.leaf_initial == (1usize, 0usize),
        c.branch == (1usize, 1usize),
        c.leaf_attached == (2usize, 0usize),
        !c.parent_alive,
        c.leaf_final == (1usize, 0usize),
{
    let mut heap: Heap<Node> = Heap::new();
    let leaf = new_node(&mut heap, 3);
    let leaf_initial = (leaf.strong_count(&heap), leaf.weak_count(&heap));
    let branch = new_node(&mut heap, 5);
    attach_child(&mut heap, &branch, &leaf);
    let branch_counts = (branch.strong_count(&heap), branch.weak_count(&heap));
    let leaf_attached = (leaf.strong_count(&heap), leaf.weak_count(&heap));
    let ghost h = heap@;
    let ghost bid = branch.id() as int;
    let ghost lid = leaf.id();
    proof {
        let ids = child_ids(node_of(h, bid));
        assert(ids =~= seq![lid]);
        assert(ids.drop_last() =~= Seq::<nat>::empty());
        assert(ids.last() == lid);
        assert(count_id(ids.drop_last(), lid) == 0);
        assert(count_id(ids, lid) == 1);
        assert forall|j: int| 0 <= j < h.len() && count_id(ids, j as nat) > 0 implies (#[trigger] h[j]).strong
            > count_id(ids, j as nat) by {
            assert(count_id(ids.drop_last(), j as nat) == 0);
            assert(count_id(ids, j as nat) == if lid == j as nat {
                1nat
            } else {
                0nat
            });
        }
        assert(children_owned_elsewhere(h, bid));
        assert(count_id(child_ids(node_of(h, bid)), lid) > 0);
    }
    release_node(&mut heap, branch);
    let parent = parent_of(&mut heap, &leaf);
    let parent_alive = parent.is_some();
    let leaf_final = (leaf.strong_count(&heap), leaf.weak_count(&heap));
    TreeCounts {
        leaf_initial,
        branch: branch_counts,
        leaf_attached,
        parent_alive,
        leaf_final,
    }
}

} // verus!
