//! A tree of shared nodes kept in an arena.
//!
//! Every node lives in a slot of a [`Forest`]. A child is owned by its parent
//! (the parent lists it among its children), while the link from a child to its
//! parent is only a slot number and keeps nothing alive. A [`Tree`] is a handle
//! on one node; the forest counts the handles of each node. A node is alive
//! while it has a handle, or while its parent is alive (which owns it). Once the
//! last handle on a root is released, the root is gone and navigation from its
//! descendants stops below it. Slots are never reused: a node that is gone
//! keeps its slot, and no live link leads to it any more.

use vstd::prelude::*;

verus! {

/// What the forest records of one node.
pub struct NodeModel<T> {
    pub value: T,
    pub parent: Option<usize>,
    pub children: Seq<usize>,
    pub handles: nat,
}

/// A node in the arena.
struct Node<T> {
    value: T,
    parent: Option<usize>,
    children: Vec<usize>,
    handles: u64,
}

/// The arena that holds every node of one or more trees.
pub struct Forest<T> {
    nodes: Vec<Node<T>>,
}

/// A handle on one node of a [`Forest`].
pub struct Tree {
    slot: usize,
}

impl<T> Node<T> {
    spec fn model(&self) -> NodeModel<T> {
        NodeModel {
            value: self.value,
            parent: self.parent,
            children: self.children@,
            handles: self.handles as nat,
        }
    }
}

impl<T> View for Forest<T> {
    type V = Seq<NodeModel<T>>;

    closed spec fn view(&self) -> Seq<NodeModel<T>> {
        self.nodes@.map_values(|n: Node<T>| n.model())
    }
}

impl View for Tree {
    type V = int;

    closed spec fn view(&self) -> int {
        self.slot as int
    }
}

/// The record of a root that holds `value` and one handle.
pub open spec fn fresh_root<T>(value: T) -> NodeModel<T> {
    NodeModel { value, parent: None, children: seq![], handles: 1 }
}

/// Node `i` is a slot of `m`.
pub open spec fn valid_slot<T>(m: Seq<NodeModel<T>>, i: int) -> bool {
    0 <= i < m.len()
}

/// The links around node `i` agree with each other: its parent comes before it
/// and lists it; its children come after it, in increasing order, and name it
/// as their parent.
pub open spec fn node_links_ok<T>(m: Seq<NodeModel<T>>, i: int) -> bool {
    &&& match m[i].parent {
        Some(p) => p < i && m[p as int].children.contains(i as usize),
        None => true,
    }
    &&& forall|k: int|
        #![trigger m[i].children[k]]
        0 <= k < m[i].children.len() ==> {
            &&& i < m[i].children[k] < m.len()
            &&& m[m[i].children[k] as int].parent == Some(i as usize)
        }
    &&& forall|k1: int, k2: int|
        #![trigger m[i].children[k1], m[i].children[k2]]
        0 <= k1 < k2 < m[i].children.len() ==> m[i].children[k1] < m[i].children[k2]
}

/// Every node of `m` has consistent links, and every slot fits a `usize`.
pub open spec fn well_formed<T>(m: Seq<NodeModel<T>>) -> bool {
    &&& m.len() <= usize::MAX
    &&& forall|i: int| #![trigger m[i]] 0 <= i < m.len() ==> node_links_ok(m, i)
}


/// Node `i` is alive: it has a handle, or its parent is alive and owns it.
pub open spec fn is_live<T>(m: Seq<NodeModel<T>>, i: int) -> bool
    decreases i,
{
    if valid_slot(m, i) {
        m[i].handles > 0 || match m[i].parent {
            Some(p) => 0 <= p < i && is_live(m, p as int),
            None => false,
        }
    } else {
        false
    }
}

/// The parent of node `i` while it is alive; none for a root or a released
/// parent.
pub open spec fn live_parent<T>(m: Seq<NodeModel<T>>, i: int) -> Option<usize> {
    match m[i].parent {
        Some(p) => if p < i && is_live(m, p as int) {
            Some(p)
        } else {
            None
        },
        None => None,
    }
}

/// The slots met on the way from the highest ancestor still reachable through
/// live parents down to node `i`, in that order.
pub open spec fn path_ids<T>(m: Seq<NodeModel<T>>, i: int) -> Seq<usize>
    decreases i,
{
    if valid_slot(m, i) {
        match live_parent(m, i) {
            Some(p) => if 0 <= p < i {
                path_ids(m, p as int).push(i as usize)
            } else {
                seq![i as usize]
            },
            None => seq![i as usize],
        }
    } else {
        seq![]
    }
}

/// The values of the nodes in `ids`.
pub open spec fn values_of<T>(m: Seq<NodeModel<T>>, ids: Seq<usize>) -> Seq<T> {
    ids.map_values(|j: usize| m[j as int].value)
}

/// The values along the path from the highest reachable ancestor to node `i`.
pub open spec fn path_values<T>(m: Seq<NodeModel<T>>, i: int) -> Seq<T> {
    values_of(m, path_ids(m, i))
}

/// The values of the subtree under node `i` in pre-order: the node itself, then
/// the subtree of each child in the order the children were added.
pub open spec fn preorder<T>(m: Seq<NodeModel<T>>, i: int) -> Seq<T>
    decreases m.len() - i, 1int, 0int,
{
    if valid_slot(m, i) {
        seq![m[i].value] + children_preorder(m, i, m[i].children.len() as int)
    } else {
        seq![]
    }
}

/// The pre-order values of the subtrees under the first `k` children of node
/// `i`, one after the other.
pub open spec fn children_preorder<T>(m: Seq<NodeModel<T>>, i: int, k: int) -> Seq<T>
    decreases m.len() - i, 0int, k,
{
    if valid_slot(m, i) && 0 < k <= m[i].children.len() {
        let c = m[i].children[k - 1] as int;
        children_preorder(m, i, k - 1) + if i < c < m.len() {
            preorder(m, c)
        } else {
            seq![]
        }
    } else {
        seq![]
    }
}

/// The root above node `i`, following parent links whether or not the nodes
/// on the way are alive.
pub open spec fn root_of<T>(m: Seq<NodeModel<T>>, i: int) -> int
    decreases i,
{
    match m[i].parent {
        Some(p) => if 0 <= p < i {
            root_of(m, p as int)
        } else {
            i
        },
        None => i,
    }
}

/// Every proper ancestor of node `i` is alive.
pub open spec fn ancestors_live<T>(m: Seq<NodeModel<T>>, i: int) -> bool
    decreases i,
{
    match m[i].parent {
        Some(p) => if 0 <= p < i {
            is_live(m, p as int) && ancestors_live(m, p as int)
        } else {
            true
        },
        None => true,
    }
}


/// Node `a` is node `i` or one of its ancestors, following parent links
/// whether or not the nodes on the way are alive.
pub open spec fn is_above<T>(m: Seq<NodeModel<T>>, a: int, i: int) -> bool
    decreases i,
{
    a == i || match m[i].parent {
        Some(p) => 0 <= p < i && is_above(m, a, p as int),
        None => false,
    }
}

/// `m` after a child holding `value` was added under node `t`.
pub open spec fn pushed<T>(m: Seq<NodeModel<T>>, t: int, value: T) -> Seq<NodeModel<T>> {
    m.update(t, NodeModel { children: m[t].children.push(m.len() as usize), ..m[t] }).push(
        NodeModel { value, parent: Some(t as usize), children: seq![], handles: 1 },
    )
}

/// `m` with one more handle on node `i`.
pub open spec fn with_handle<T>(m: Seq<NodeModel<T>>, i: int) -> Seq<NodeModel<T>> {
    m.update(i, NodeModel { handles: m[i].handles + 1, ..m[i] })
}

/// `m` with one handle fewer on node `i`.
pub open spec fn released<T>(m: Seq<NodeModel<T>>, i: int) -> Seq<NodeModel<T>> {
    m.update(i, NodeModel { handles: (m[i].handles - 1) as nat, ..m[i] })
}

impl<T: Copy> Forest<T> {
    /// An arena with no node.
    pub fn new() -> (r: Forest<T>)
        ensures
            r@ == Seq::<NodeModel<T>>::empty(),
            well_formed(r@),
    {
        let r = Forest { nodes: Vec::new() };
        assert(r@ =~= Seq::<NodeModel<T>>::empty());
        r
    }

    /// Number of nodes ever created in this arena.
    pub fn len(&self) -> (r: usize)
        ensures
            r == self@.len(),
    {
        self.nodes.len()
    }

    /// Whether node `i` is alive.
    fn live(&self, i: usize) -> (r: bool)
        requires
            well_formed(self@),
            i < self@.len(),
        ensures
            r == is_live(self@, i as int),
    {
        let mut cur: usize = i;
        loop
            invariant
                well_formed(self@),
                cur < self@.len(),
                is_live(self@, i as int) == is_live(self@, cur as int),
            decreases cur,
        {
            assert(self@[cur as int] == self.nodes@[cur as int].model());
            if self.nodes[cur].handles > 0 {
                return true;
            }
            match self.nodes[cur].parent {
                Some(p) => {
                    assert(node_links_ok(self@, cur as int));
                    cur = p;
                },
                None => {
                    return false;
                },
            }
        }
    }
}


/// Two arenas of the same size whose nodes have the same links are well formed
/// together.
proof fn lemma_same_links<T>(a: Seq<NodeModel<T>>, b: Seq<NodeModel<T>>)
    requires
        well_formed(a),
        a.len() == b.len(),
        forall|i: int|
            #![trigger b[i]]
            0 <= i < a.len() ==> a[i].parent == b[i].parent && a[i].children == b[i].children,
    ensures
        well_formed(b),
{
    assert forall|i: int| #![trigger b[i]] 0 <= i < b.len() implies node_links_ok(b, i) by {
        assert(node_links_ok(a, i));
        assert(a[i].parent == b[i].parent && a[i].children == b[i].children);
        if let Some(p) = b[i].parent {
            assert(a[p as int].children == b[p as int].children);
        }
        assert forall|k: int|
            #![trigger b[i].children[k]]
            0 <= k < b[i].children.len() implies {
            &&& i < b[i].children[k] < b.len()
            &&& b[b[i].children[k] as int].parent == Some(i as usize)
        } by {
            assert(a[i].children[k] == b[i].children[k]);
            let c = b[i].children[k] as int;
            assert(a[c].parent == b[c].parent);
        }
    }
}

/// Adding a root keeps an arena well formed.
proof fn lemma_root_well_formed<T>(m: Seq<NodeModel<T>>, value: T)
    requires
        well_formed(m),
        m.len() < usize::MAX,
    ensures
        well_formed(m.push(fresh_root(value))),
{
    let n = m.push(fresh_root(value));
    assert forall|i: int| #![trigger n[i]] 0 <= i < n.len() implies node_links_ok(n, i) by {
        if i < m.len() {
            assert(n[i] == m[i]);
            assert(node_links_ok(m, i));
            if let Some(p) = n[i].parent {
                assert(n[p as int] == m[p as int]);
            }
            assert forall|k: int|
                #![trigger n[i].children[k]]
                0 <= k < n[i].children.len() implies {
                &&& i < n[i].children[k] < n.len()
                &&& n[n[i].children[k] as int].parent == Some(i as usize)
            } by {
                let c = m[i].children[k] as int;
                assert(n[c] == m[c]);
            }
        }
    }
}

/// Adding a child under a node keeps an arena well formed.
proof fn lemma_pushed_well_formed<T>(m: Seq<NodeModel<T>>, t: int, value: T)
    requires
        well_formed(m),
        valid_slot(m, t),
        m.len() < usize::MAX,
    ensures
        well_formed(pushed(m, t, value)),
{
    let n = pushed(m, t, value);
    let new = m.len() as int;
    assert forall|i: int| #![trigger n[i]] 0 <= i < n.len() implies node_links_ok(n, i) by {
        if i == new {
            assert(n[t].children.contains(i as usize)) by {
                assert(n[t].children[m[t].children.len() as int] == i as usize);
            }
        } else {
            assert(node_links_ok(m, i));
            assert(n[i].parent == m[i].parent);
            if let Some(p) = n[i].parent {
                assert(m[p as int].children.contains(i as usize));
                if p == t {
                    let k = choose|k: int|
                        0 <= k < m[t].children.len() && m[t].children[k] == i as usize;
                    assert(n[t].children[k] == i as usize);
                } else {
                    assert(n[p as int] == m[p as int]);
                }
            }
            assert forall|k: int|
                #![trigger n[i].children[k]]
                0 <= k < n[i].children.len() implies {
                &&& i < n[i].children[k] < n.len()
                &&& n[n[i].children[k] as int].parent == Some(i as usize)
            } by {
                if i == t && k == m[t].children.len() {
                    assert(n[i].children[k] == new as usize);
                } else {
                    assert(n[i].children[k] == m[i].children[k]);
                    let c = m[i].children[k] as int;
                    assert(n[c].parent == m[c].parent);
                }
            }
            assert forall|k1: int, k2: int|
                #![trigger n[i].children[k1], n[i].children[k2]]
                0 <= k1 < k2 < n[i].children.len() implies n[i].children[k1]
                < n[i].children[k2] by {
                if i == t && k2 == m[t].children.len() {
                    assert(n[i].children[k1] == m[i].children[k1]);
                } else {
                    assert(n[i].children[k1] == m[i].children[k1]);
                    assert(n[i].children[k2] == m[i].children[k2]);
                }
            }
        }
    }
}

impl Tree {
    /// Creates a root holding `value` in `forest` and returns its handle.
    pub fn new<T: Copy>(forest: &mut Forest<T>, value: T) -> (r: Tree)
        requires
            well_formed(old(forest)@),
            old(forest)@.len() < usize::MAX,
        ensures
            final(forest)@ == old(forest)@.push(fresh_root(value)),
            well_formed(final(forest)@),
            r@ == old(forest)@.len(),
    {
        let slot = forest.nodes.len();
        forest.nodes.push(Node { value, parent: None, children: Vec::new(), handles: 1 });
        proof {
            lemma_root_well_formed(old(forest)@, value);
            assert(forest@ =~= old(forest)@.push(fresh_root(value)));
        }
        Tree { slot }
    }

    /// Adds a child holding `value` after the existing children of this node
    /// and returns a handle on the child. This handle stays valid.
    pub fn push<T: Copy>(&self, forest: &mut Forest<T>, value: T) -> (r: Tree)
        requires
            well_formed(old(forest)@),
            valid_slot(old(forest)@, self@),
            old(forest)@.len() < usize::MAX,
        ensures
            final(forest)@ == pushed(old(forest)@, self@, value),
            well_formed(final(forest)@),
            r@ == old(forest)@.len(),
    {
        let slot = forest.nodes.len();
        forest.nodes[self.slot].children.push(slot);
        forest.nodes.push(Node { value, parent: Some(self.slot), children: Vec::new(), handles: 1 });
        proof {
            lemma_pushed_well_formed(old(forest)@, self@, value);
            assert(forest@ =~= pushed(old(forest)@, self@, value));
        }
        Tree { slot }
    }
    /// The value held by this node.
    pub fn value<T: Copy>(&self, forest: &Forest<T>) -> (r: T)
        requires
            valid_slot(forest@, self@),
        ensures
            r == forest@[self@].value,
    {
        forest.nodes[self.slot].value
    }

    /// A new handle on the parent of this node, or none where this node is a
    /// root or its parent is no longer alive.
    pub fn parent<T: Copy>(&self, forest: &mut Forest<T>) -> (r: Option<Tree>)
        requires
            well_formed(old(forest)@),
            valid_slot(old(forest)@, self@),
            live_parent(old(forest)@, self@) matches Some(p) ==> old(forest)@[p as int].handles
                < u64::MAX,
        ensures
            well_formed(final(forest)@),
            match live_parent(old(forest)@, self@) {
                Some(p) => r matches Some(h) && h@ == p && final(forest)@ == with_handle(
                    old(forest)@,
                    p as int,
                ),
                None => r is None && final(forest)@ == old(forest)@,
            },
    {
        proof {
            assert(node_links_ok(forest@, self@));
            assert(forest@[self@] == forest.nodes@[self@].model());
        }
        match forest.nodes[self.slot].parent {
            Some(p) => {
                if forest.live(p) {
                    forest.nodes[p].handles = forest.nodes[p].handles + 1;
                    proof {
                        assert(forest@ =~= with_handle(old(forest)@, p as int));
                        lemma_same_links(old(forest)@, forest@);
                    }
                    Some(Tree { slot: p })
                } else {
                    None
                }
            },
            None => None,
        }
    }

    /// Gives this handle back to `forest`.
    pub fn release<T: Copy>(self, forest: &mut Forest<T>)
        requires
            well_formed(old(forest)@),
            valid_slot(old(forest)@, self@),
            old(forest)@[self@].handles > 0,
        ensures
            well_formed(final(forest)@),
            final(forest)@ == released(old(forest)@, self@),
    {
        proof {
            assert(forest@[self@] == forest.nodes@[self@].model());
        }
        forest.nodes[self.slot].handles = forest.nodes[self.slot].handles - 1;
        proof {
            assert(forest@ =~= released(old(forest)@, self@));
            lemma_same_links(old(forest)@, forest@);
        }
    }

    /// The values from the highest ancestor still reachable through live
    /// parents down to this node.
    pub fn values_from_root<T: Copy>(&self, forest: &Forest<T>) -> (r: Vec<T>)
        requires
            well_formed(forest@),
            valid_slot(forest@, self@),
        ensures
            r@ == path_values(forest@, self@),
    {
        let mut values: Vec<T> = Vec::new();
        forest.path_into(self.slot, &mut values);
        proof {
            assert(values@ =~= path_values(forest@, self@));
        }
        values
    }

    /// The values of the subtree under this node, in pre-order.
    pub fn to_vec<T: Copy>(&self, forest: &Forest<T>) -> (r: Vec<T>)
        requires
            well_formed(forest@),
            valid_slot(forest@, self@),
        ensures
            r@ == preorder(forest@, self@),
    {
        let mut values: Vec<T> = Vec::new();
        forest.collect(self.slot, &mut values);
        proof {
            assert(values@ =~= preorder(forest@, self@));
        }
        values
    }
}

impl<T: Copy> Forest<T> {
    /// Appends the values along the live path down to node `i`.
    fn path_into(&self, i: usize, out: &mut Vec<T>)
        requires
            well_formed(self@),
            i < self@.len(),
        ensures
            final(out)@ == old(out)@ + path_values(self@, i as int),
        decreases i,
    {
        let ghost m = self@;
        proof {
            assert(node_links_ok(m, i as int));
            assert(m[i as int] == self.nodes@[i as int].model());
        }
        match self.nodes[i].parent {
            Some(p) => {
                if self.live(p) {
                    self.path_into(p, out);
                }
            },
            None => {},
        }
        out.push(self.nodes[i].value);
        proof {
            let ids = path_ids(m, i as int);
            match live_parent(m, i as int) {
                Some(p) => {
                    assert(ids == path_ids(m, p as int).push(i as usize));
                    assert(values_of(m, ids) =~= values_of(m, path_ids(m, p as int)).push(
                        m[i as int].value,
                    ));
                },
                None => {
                    assert(values_of(m, ids) =~= seq![m[i as int].value]);
                },
            }
            assert(final(out)@ =~= old(out)@ + path_values(m, i as int));
        }
    }

    /// Appends the pre-order values of the subtree under node `i`.
    fn collect(&self, i: usize, out: &mut Vec<T>)
        requires
            well_formed(self@),
            i < self@.len(),
        ensures
            final(out)@ == old(out)@ + preorder(self@, i as int),
        decreases self@.len() - i,
    {
        let ghost m = self@;
        let ghost start = out@;
        proof {
            assert(node_links_ok(m, i as int));
            assert(m[i as int] == self.nodes@[i as int].model());
        }
        out.push(self.nodes[i].value);
        let n = self.nodes[i].children.len();
        let mut k: usize = 0;
        while k < n
            invariant
                well_formed(self@),
                m == self@,
                i < m.len(),
                node_links_ok(m, i as int),
                m[i as int] == self.nodes@[i as int].model(),
                n == m[i as int].children.len(),
                k <= n,
                out@ == start + seq![m[i as int].value] + children_preorder(m, i as int, k as int),
            decreases n - k,
        {
            let c = self.nodes[i].children[k];
            assert(c == m[i as int].children[k as int]);
            let ghost before = out@;
            self.collect(c, out);
            proof {
                assert(children_preorder(m, i as int, k + 1) == children_preorder(m, i as int, k as int)
                    + preorder(m, c as int));
                assert(out@ =~= start + seq![m[i as int].value] + children_preorder(
                    m,
                    i as int,
                    k + 1,
                ));
            }
            k = k + 1;
        }
        proof {
            assert(out@ =~= start + preorder(m, i as int));
        }
    }
}

/// Pre-order values of a subtree depend only on the nodes from its root on.
proof fn lemma_preorder_frame<T>(m: Seq<NodeModel<T>>, n: Seq<NodeModel<T>>, c: int)
    requires
        well_formed(m),
        n.len() >= m.len(),
        0 <= c < m.len(),
        forall|j: int| #![trigger n[j]] c <= j < m.len() ==> n[j] == m[j],
    ensures
        preorder(n, c) == preorder(m, c),
    decreases m.len() - c, 1int, 0int,
{
    assert(n[c] == m[c]);
    lemma_children_preorder_frame(m, n, c, m[c].children.len() as int);
}

/// The children part of [`lemma_preorder_frame`].
proof fn lemma_children_preorder_frame<T>(
    m: Seq<NodeModel<T>>,
    n: Seq<NodeModel<T>>,
    i: int,
    k: int,
)
    requires
        well_formed(m),
        n.len() >= m.len(),
        0 <= i < m.len(),
        0 <= k <= m[i].children.len(),
        forall|j: int| #![trigger n[j]] i <= j < m.len() ==> n[j] == m[j],
    ensures
        children_preorder(n, i, k) == children_preorder(m, i, k),
    decreases m.len() - i, 0int, k,
{
    assert(n[i] == m[i]);
    if k > 0 {
        lemma_children_preorder_frame(m, n, i, k - 1);
        assert(node_links_ok(m, i));
        let c = m[i].children[k - 1] as int;
        lemma_preorder_frame(m, n, c);
    }
}

/// Adding a child under `t` leaves the subtrees of its earlier children as
/// they were.
proof fn lemma_pushed_children_preorder<T>(m: Seq<NodeModel<T>>, t: int, value: T, k: int)
    requires
        well_formed(m),
        valid_slot(m, t),
        m.len() < usize::MAX,
        0 <= k <= m[t].children.len(),
    ensures
        children_preorder(pushed(m, t, value), t, k) == children_preorder(m, t, k),
    decreases k,
{
    let n = pushed(m, t, value);
    if k > 0 {
        lemma_pushed_children_preorder(m, t, value, k - 1);
        assert(node_links_ok(m, t));
        let c = m[t].children[k - 1] as int;
        assert(n[t].children[k - 1] == c);
        assert forall|j: int| #![trigger n[j]] c <= j < m.len() implies n[j] == m[j] by {}
        lemma_preorder_frame(m, n, c);
    }
}

/// A root that was just created has itself alone in its pre-order.
pub proof fn law_fresh_root_preorder<T>(m: Seq<NodeModel<T>>, value: T)
    ensures
        preorder(m.push(fresh_root(value)), m.len() as int) == seq![value],
{
    let n = m.push(fresh_root(value));
    assert(children_preorder(n, m.len() as int, 0) == Seq::<T>::empty());
    assert(preorder(n, m.len() as int) =~= seq![value]);
}

/// Adding a child under a node puts the child's value at the end of that
/// node's pre-order, after everything that was already below the node.
pub proof fn law_push_extends_preorder<T>(m: Seq<NodeModel<T>>, t: int, value: T)
    requires
        well_formed(m),
        valid_slot(m, t),
        m.len() < usize::MAX,
    ensures
        preorder(pushed(m, t, value), t) == preorder(m, t).push(value),
{
    let n = pushed(m, t, value);
    let len = m[t].children.len() as int;
    let new = m.len() as int;
    lemma_pushed_children_preorder(m, t, value, len);
    assert(n[t].children[len] == new);
    assert(children_preorder(n, new, 0) == Seq::<T>::empty());
    assert(preorder(n, new) =~= seq![value]);
    assert(children_preorder(n, t, len + 1) == children_preorder(n, t, len) + preorder(n, new));
    assert(preorder(n, t) =~= preorder(m, t).push(value));
}

/// A node that lies above `i` has a parent that lies above `i` too.
proof fn lemma_parent_above<T>(m: Seq<NodeModel<T>>, c: int, i: int)
    requires
        well_formed(m),
        valid_slot(m, c),
        valid_slot(m, i),
        is_above(m, c, i),
        m[c].parent is Some,
    ensures
        is_above(m, m[c].parent->0 as int, i),
    decreases i,
{
    assert(node_links_ok(m, c));
    assert(node_links_ok(m, i));
    if c != i {
        let p = m[i].parent->0 as int;
        lemma_parent_above(m, c, p);
    } else {
        let p = m[c].parent->0 as int;
        assert(is_above(m, p, p));
    }
}

/// Adding a child under `t` leaves the subtree of every node that is not
/// above `t` as it was.
pub proof fn law_push_keeps_other_subtrees<T>(m: Seq<NodeModel<T>>, t: int, value: T, a: int)
    requires
        well_formed(m),
        valid_slot(m, t),
        m.len() < usize::MAX,
        valid_slot(m, a),
        !is_above(m, a, t),
    ensures
        preorder(pushed(m, t, value), a) == preorder(m, a),
    decreases m.len() - a, 1int, 0int,
{
    let n = pushed(m, t, value);
    assert(n[a] == m[a]);
    lemma_push_keeps_other_children(m, t, value, a, m[a].children.len() as int);
}

/// The children part of [`law_push_keeps_other_subtrees`].
proof fn lemma_push_keeps_other_children<T>(
    m: Seq<NodeModel<T>>,
    t: int,
    value: T,
    a: int,
    k: int,
)
    requires
        well_formed(m),
        valid_slot(m, t),
        m.len() < usize::MAX,
        valid_slot(m, a),
        !is_above(m, a, t),
        0 <= k <= m[a].children.len(),
    ensures
        children_preorder(pushed(m, t, value), a, k) == children_preorder(m, a, k),
    decreases m.len() - a, 0int, k,
{
    let n = pushed(m, t, value);
    assert(n[a] == m[a]);
    if k > 0 {
        lemma_push_keeps_other_children(m, t, value, a, k - 1);
        assert(node_links_ok(m, a));
        let c = m[a].children[k - 1] as int;
        assert(m[c].parent == Some(a as usize));
        if is_above(m, c, t) {
            lemma_parent_above(m, c, t);
        }
        law_push_keeps_other_subtrees(m, t, value, c);
    }
}

/// The path to node `i` ends at `i`, each of its entries is the parent of the
/// next, and every entry before the last is alive. Where all ancestors of `i`
/// are alive, the path starts at the root of `i`.
pub proof fn law_path_shape<T>(m: Seq<NodeModel<T>>, i: int)
    requires
        well_formed(m),
        valid_slot(m, i),
    ensures
        path_ids(m, i).len() >= 1,
        path_ids(m, i).last() == i,
        path_values(m, i).last() == m[i].value,
        forall|k: int|
            #![trigger path_ids(m, i)[k]]
            1 <= k < path_ids(m, i).len() ==> m[path_ids(m, i)[k] as int].parent == Some(
                path_ids(m, i)[k - 1],
            ),
        forall|k: int|
            #![trigger path_ids(m, i)[k]]
            0 <= k < path_ids(m, i).len() - 1 ==> is_live(m, path_ids(m, i)[k] as int),
        ancestors_live(m, i) ==> path_ids(m, i)[0] == root_of(m, i) && path_values(m, i)[0]
            == m[root_of(m, i)].value,
    decreases i,
{
    assert(node_links_ok(m, i));
    let ids = path_ids(m, i);
    assert(path_values(m, i).last() == m[ids.last() as int].value);
    match live_parent(m, i) {
        Some(p) => {
            law_path_shape(m, p as int);
            let up = path_ids(m, p as int);
            assert(ids == up.push(i as usize));
            assert forall|k: int|
                #![trigger ids[k]]
                1 <= k < ids.len() implies m[ids[k] as int].parent == Some(ids[k - 1]) by {
                if k == ids.len() - 1 {
                    assert(ids[k - 1] == up.last());
                } else {
                    assert(ids[k] == up[k] && ids[k - 1] == up[k - 1]);
                }
            }
            assert forall|k: int|
                #![trigger ids[k]]
                0 <= k < ids.len() - 1 implies is_live(m, ids[k] as int) by {
                assert(ids[k] == up[k]);
                if k == up.len() - 1 {
                    assert(up[k] == p);
                }
            }
            assert(ancestors_live(m, i) == ancestors_live(m, p as int));
            assert(root_of(m, i) == root_of(m, p as int));
            assert(ids[0] == up[0]);
        },
        None => {
            assert(ids == seq![i as usize]);
            if ancestors_live(m, i) {
                match m[i].parent {
                    Some(p) => {
                        assert(p < i);
                        assert(is_live(m, p as int));
                    },
                    None => {},
                }
            }
        },
    }
}

/// A node alive after a handle was released was alive before.
proof fn lemma_release_live<T>(m: Seq<NodeModel<T>>, h: int, a: int)
    requires
        valid_slot(m, h),
        m[h].handles > 0,
        is_live(released(m, h), a),
    ensures
        is_live(m, a),
    decreases a,
{
    let r = released(m, h);
    if r[a].handles == 0 {
        if let Some(p) = r[a].parent {
            lemma_release_live(m, h, p as int);
        }
    }
}

/// Releasing a handle can only shorten a path from the top: the path to any
/// node afterwards is a final part of the path before.
pub proof fn law_release_keeps_suffix<T>(m: Seq<NodeModel<T>>, h: int, i: int)
    requires
        well_formed(m),
        valid_slot(m, h),
        m[h].handles > 0,
        valid_slot(m, i),
    ensures
        path_ids(released(m, h), i).len() <= path_ids(m, i).len(),
        path_ids(released(m, h), i) == path_ids(m, i).subrange(
            path_ids(m, i).len() - path_ids(released(m, h), i).len(),
            path_ids(m, i).len() as int,
        ),
    decreases i,
{
    let r = released(m, h);
    law_path_shape(m, i);
    let before = path_ids(m, i);
    let after = path_ids(r, i);
    match live_parent(r, i) {
        Some(p) => {
            lemma_release_live(m, h, p as int);
            assert(live_parent(m, i) == Some(p));
            law_release_keeps_suffix(m, h, p as int);
            assert(after =~= before.subrange(before.len() - after.len(), before.len() as int));
        },
        None => {
            assert(after == seq![i as usize]);
            assert(after =~= before.subrange(before.len() - 1, before.len() as int));
        },
    }
}

/// Once the last handle on a root is released, the root is gone and no path
/// to any other node passes through it.
pub proof fn law_release_root_cuts_paths<T>(m: Seq<NodeModel<T>>, h: int, i: int)
    requires
        well_formed(m),
        valid_slot(m, h),
        m[h].parent is None,
        m[h].handles == 1,
        valid_slot(m, i),
        i != h,
    ensures
        !is_live(released(m, h), h),
        !path_ids(released(m, h), i).contains(h as usize),
{
    let r = released(m, h);
    lemma_same_links(m, r);
    law_path_shape(r, i);
    let ids = path_ids(r, i);
    if ids.contains(h as usize) {
        let k = choose|k: int| 0 <= k < ids.len() && ids[k] == h as usize;
        if k < ids.len() - 1 {
            assert(is_live(r, ids[k] as int));
        }
    }
}

} // verus!
