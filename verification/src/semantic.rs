//! The semantic model of a source: its nodes, each with its parent and its children, built
//! by an indexer that the walk of the parse drives node by node.
use crate::syntax::{parent_of, NodeKind, SyntaxNode};
use vstd::prelude::*;

verus! {

/// A node's position in the list of nodes of its model.
pub type NodeId = usize;

/// The chain of ancestors of node `i`: its parent, its grandparent, and so on up to a node
/// without a parent.
pub open spec fn ancestor_chain(t: Seq<SyntaxNode>, i: int) -> Seq<int>
    decreases i,
{
    if 0 <= i < t.len() {
        match t[i].parent {
            Some(p) => if p < i {
                seq![p as int] + ancestor_chain(t, p as int)
            } else {
                Seq::empty()
            },
            None => Seq::empty(),
        }
    } else {
        Seq::empty()
    }
}

/// The parent of node `id` as an id: none for a node without one, or for an id of no node.
pub open spec fn parent_link(t: Seq<SyntaxNode>, id: int) -> Option<NodeId> {
    if 0 <= id < t.len() {
        match parent_of(t, id) {
            Some(p) => Some(p as NodeId),
            None => None,
        }
    } else {
        None
    }
}

/// The ancestor of node `id` that lies `n + 1` levels up (0 is the parent), as an id.
pub open spec fn ancestor_link(t: Seq<SyntaxNode>, id: int, n: int) -> Option<NodeId> {
    let c = ancestor_chain(t, id);
    if 0 <= n < c.len() {
        Some(c[n] as NodeId)
    } else {
        None
    }
}

/// The node that `id` names, where it names one.
pub open spec fn node_at(t: Seq<SyntaxNode>, id: Option<NodeId>) -> Option<SyntaxNode> {
    match id {
        Some(i) => if i < t.len() {
            Some(t[i as int])
        } else {
            None
        },
        None => None,
    }
}

/// `r` refers to the node that `o` holds, or is none where `o` is.
pub open spec fn refers_to(r: Option<&SyntaxNode>, o: Option<SyntaxNode>) -> bool {
    match (r, o) {
        (Some(a), Some(b)) => *a == b,
        (None, None) => true,
        _ => false,
    }
}

/// `r` gives, with its id, the node that `id` names, or is none where `id` names none.
pub open spec fn refers_with_id(t: Seq<SyntaxNode>, r: Option<(NodeId, &SyntaxNode)>, id: Option<NodeId>) -> bool {
    match r {
        Some(pair) => id == Some(pair.0) && pair.0 < t.len() && *pair.1 == t[pair.0 as int],
        None => node_at(t, id) is None,
    }
}

/// The first step of the chain of ancestors, and the rest of it.
pub proof fn lemma_chain_step(t: Seq<SyntaxNode>, id: int)
    ensures
        ancestor_chain(t, id) == (match parent_link(t, id) {
            Some(p) => seq![p as int] + ancestor_chain(t, p as int),
            None => Seq::<int>::empty(),
        }),
        parent_link(t, id) matches Some(p) ==> 0 <= p < id < t.len(),
{
}

/// Every ancestor of a node is a node that comes before it.
pub proof fn lemma_chain_precedes(t: Seq<SyntaxNode>, id: int)
    ensures
        forall|k: int| 0 <= k < ancestor_chain(t, id).len() ==> 0 <= #[trigger] ancestor_chain(t, id)[k] < id,
    decreases id,
{
    match parent_link(t, id) {
        Some(p) => {
            lemma_chain_precedes(t, p as int);
            let c = ancestor_chain(t, id);
            assert forall|k: int| 0 <= k < c.len() implies 0 <= #[trigger] c[k] < id by {
                if k > 0 {
                    assert(c[k] == ancestor_chain(t, p as int)[k - 1]);
                }
            }
        },
        None => {},
    }
}

/// Every parent comes before its child and lists it among its children.
#[verifier::opaque]
pub open spec fn parents_listed(t: Seq<SyntaxNode>) -> bool {
    forall|i: int|
        0 <= i < t.len() && (#[trigger] t[i]).parent is Some ==> {
            let p = t[i].parent->0 as int;
            &&& p < i
            &&& t[p].children@.contains(i as usize)
        }
}

/// Every listed child comes after its parent and names it as its parent.
#[verifier::opaque]
pub open spec fn children_linked(t: Seq<SyntaxNode>) -> bool {
    forall|i: int, k: int|
        0 <= i < t.len() && 0 <= k < t[i].children@.len() ==> {
            let c = #[trigger] t[i].children@[k] as int;
            &&& i < c < t.len()
            &&& t[c].parent == Some(i as usize)
        }
}

/// The parent and children links of `t` agree.
pub open spec fn tree_wf(t: Seq<SyntaxNode>) -> bool {
    parents_listed(t) && children_linked(t)
}

/// What `parents_listed` says of node `i`.
pub proof fn lemma_parent_listed(t: Seq<SyntaxNode>, i: int)
    requires
        parents_listed(t),
        0 <= i < t.len(),
        t[i].parent is Some,
    ensures
        t[i].parent->0 < i,
        t[t[i].parent->0 as int].children@.contains(i as usize),
{
    reveal(parents_listed);
}

/// What `children_linked` says of the `k`th child of node `i`.
pub proof fn lemma_child_linked(t: Seq<SyntaxNode>, i: int, k: int)
    requires
        children_linked(t),
        0 <= i < t.len(),
        0 <= k < t[i].children@.len(),
    ensures
        i < t[i].children@[k] < t.len(),
        t[t[i].children@[k] as int].parent == Some(i as usize),
{
    reveal(children_linked);
}

/// The nodes of a source with their parent and children links.
pub struct SemanticModel {
    pub nodes: Vec<SyntaxNode>,
    /// The node that a walk driven by `push_node` and `pop_node` is at.
    pub current_node_id: Option<NodeId>,
}

/// `b` is `a` with `child` added as its last child.
pub open spec fn with_child(a: SyntaxNode, b: SyntaxNode, child: usize) -> bool {
    &&& b.kind == a.kind
    &&& b.start == a.start
    &&& b.end == a.end
    &&& b.parent == a.parent
    &&& b.keyword == a.keyword
    &&& b.end_keyword == a.end_keyword
    &&& b.name@ == a.name@
    &&& b.receiver == a.receiver
    &&& b.arguments == a.arguments
    &&& b.value == a.value
    &&& b.children@ == a.children@.push(child)
}

impl SemanticModel {
    /// An empty model.
    pub fn new() -> (m: Self)
        ensures
            m.nodes@ == Seq::<SyntaxNode>::empty(),
            m.current() == None::<NodeId>,
    {
        SemanticModel { nodes: Vec::new(), current_node_id: None }
    }

    /// Add `node` under `parent_id` and give its id: `node` becomes the last node, with
    /// `parent_id` as its parent, and the last child of its parent.
    pub fn add_node(&mut self, node: SyntaxNode, parent_id: Option<NodeId>) -> (id: NodeId)
        requires
            old(self).nodes@.len() < usize::MAX,
            parent_id matches Some(p) ==> p < old(self).nodes@.len(),
        ensures
            id == old(self).nodes@.len(),
            final(self).nodes@.len() == id + 1,
            final(self).nodes@[id as int] == (SyntaxNode { parent: parent_id, ..node }),
            forall|j: int|
                0 <= j < id && Some(j as usize) != parent_id ==> #[trigger] final(self).nodes@[j]
                    == old(self).nodes@[j],
            parent_id matches Some(p) ==> with_child(
                old(self).nodes@[p as int],
                final(self).nodes@[p as int],
                id,
            ),
            final(self).current() == old(self).current(),
    {
        let id = self.nodes.len();
        let mut node = node;
        node.parent = parent_id;
        self.nodes.push(node);
        if let Some(p) = parent_id {
            self.nodes[p].children.push(id);
        }
        id
    }

    /// The parent of node `node_id`; `None` for a node without one or an id of no node.
    pub fn parent_id(&self, node_id: NodeId) -> (r: Option<NodeId>)
        ensures
            r == parent_link(self.nodes@, node_id as int),
    {
        if node_id < self.nodes.len() {
            match self.nodes[node_id].parent {
                Some(p) => if p < node_id {
                    Some(p)
                } else {
                    None
                },
                None => None,
            }
        } else {
            None
        }
    }

    /// The ancestors of node `node_id`, from its parent up to the root.
    pub fn ancestors(&self, node_id: NodeId) -> (r: Vec<NodeId>)
        ensures
            r@.len() == ancestor_chain(self.nodes@, node_id as int).len(),
            forall|k: int|
                0 <= k < r@.len() ==> r@[k] as int == #[trigger] ancestor_chain(
                    self.nodes@,
                    node_id as int,
                )[k],
    {
        let mut out: Vec<NodeId> = Vec::new();
        let mut current = node_id;
        loop
            invariant
                ancestor_chain(self.nodes@, node_id as int) == out@.map_values(|x: usize| x as int)
                    + ancestor_chain(self.nodes@, current as int),
            ensures
                ancestor_chain(self.nodes@, node_id as int) == out@.map_values(|x: usize| x as int),
            decreases current,
        {
            match self.parent_id(current) {
                Some(p) => {
                    proof {
                        let t = self.nodes@;
                        assert(ancestor_chain(t, current as int) == seq![p as int] + ancestor_chain(t, p as int));
                        assert(out@.push(p).map_values(|x: usize| x as int) =~= out@.map_values(|x: usize| x as int).push(p as int));
                    }
                    out.push(p);
                    current = p;
                },
                None => {
                    assert(ancestor_chain(self.nodes@, current as int) =~= Seq::<int>::empty());
                    assert(out@.map_values(|x: usize| x as int) + Seq::<int>::empty() =~= out@.map_values(|x: usize| x as int));
                    break;
                },
            }
        }
        assert forall|k: int| 0 <= k < out@.len() implies out@[k] as int == #[trigger] ancestor_chain(self.nodes@, node_id as int)[k] by {
            assert(out@.map_values(|x: usize| x as int)[k] == out@[k] as int);
        }
        out
    }

    /// The node that a walk driven by `push_node` and `pop_node` is at.
    pub open spec fn current(&self) -> Option<NodeId> {
        self.current_node_id
    }

    /// The id of the ancestor of node `node_id` that lies `n + 1` levels up (0 is the parent).
    pub fn ancestor_id_of(&self, node_id: NodeId, n: usize) -> (r: Option<NodeId>)
        ensures
            r == ancestor_link(self.nodes@, node_id as int, n as int),
    {
        let mut cur = node_id;
        let mut k = n;
        loop
            invariant
                ancestor_link(self.nodes@, node_id as int, n as int) == ancestor_link(self.nodes@, cur as int, k as int),
            decreases k,
        {
            proof {
                lemma_chain_step(self.nodes@, cur as int);
            }
            match self.parent_id(cur) {
                None => {
                    return None;
                },
                Some(p) => {
                    if k == 0 {
                        return Some(p);
                    }
                    proof {
                        let t = self.nodes@;
                        let c = ancestor_chain(t, cur as int);
                        assert(c.len() == 1 + ancestor_chain(t, p as int).len());
                        if k < c.len() {
                            assert(c[k as int] == ancestor_chain(t, p as int)[k - 1]);
                        }
                    }
                    cur = p;
                    k = k - 1;
                },
            }
        }
    }

    /// The node `node_id` names, where it names one.
    pub fn node(&self, node_id: NodeId) -> (r: Option<&SyntaxNode>)
        ensures
            refers_to(r, node_at(self.nodes@, Some(node_id))),
    {
        if node_id < self.nodes.len() {
            Some(&self.nodes[node_id])
        } else {
            None
        }
    }

    /// The node `id` names, with its id.
    fn with_id(&self, id: Option<NodeId>) -> (r: Option<(NodeId, &SyntaxNode)>)
        ensures
            refers_with_id(self.nodes@, r, id),
    {
        match id {
            Some(i) => if i < self.nodes.len() {
                Some((i, &self.nodes[i]))
            } else {
                None
            },
            None => None,
        }
    }

    /// Register `node` as the last node, under the current node, and make it the current
    /// node; give its id.
    pub fn push_node(&mut self, node: SyntaxNode) -> (id: NodeId)
        requires
            old(self).nodes@.len() < usize::MAX,
            old(self).current() matches Some(c) ==> c < old(self).nodes@.len(),
        ensures
            id == old(self).nodes@.len(),
            final(self).current() == Some(id),
            final(self).nodes@.len() == id + 1,
            final(self).nodes@[id as int] == (SyntaxNode { parent: old(self).current(), ..node }),
            forall|j: int|
                0 <= j < id && Some(j as usize) != old(self).current() ==> #[trigger] final(self).nodes@[j]
                    == old(self).nodes@[j],
            old(self).current() matches Some(p) ==> with_child(
                old(self).nodes@[p as int],
                final(self).nodes@[p as int],
                id,
            ),
    {
        let parent = self.current_node_id;
        let id = self.add_node(node, parent);
        self.current_node_id = Some(id);
        id
    }

    /// Make the parent of the current node the current node; with no current node, nothing
    /// changes.
    pub fn pop_node(&mut self)
        ensures
            final(self).nodes@ == old(self).nodes@,
            final(self).current() == (match old(self).current() {
                Some(id) => parent_link(old(self).nodes@, id as int),
                None => None,
            }),
    {
        if let Some(id) = self.current_node_id {
            self.current_node_id = self.parent_id(id);
        }
    }

    /// The id of the current node.
    pub fn current_node_id(&self) -> (r: Option<NodeId>)
        ensures
            r == self.current(),
    {
        self.current_node_id
    }

    /// The current node.
    pub fn current_node(&self) -> (r: Option<&SyntaxNode>)
        ensures
            refers_to(r, node_at(self.nodes@, self.current())),
    {
        match self.current_node_id {
            Some(id) => self.node(id),
            None => None,
        }
    }

    /// The current node with its id.
    pub fn current_node_with_id(&self) -> (r: Option<(NodeId, &SyntaxNode)>)
        ensures
            refers_with_id(self.nodes@, r, self.current()),
    {
        self.with_id(self.current_node_id)
    }

    /// The id of the parent of the current node.
    fn current_parent_id(&self) -> (r: Option<NodeId>)
        ensures
            r == (match self.current() {
                Some(id) => parent_link(self.nodes@, id as int),
                None => None,
            }),
    {
        match self.current_node_id {
            Some(id) => self.parent_id(id),
            None => None,
        }
    }

    /// The parent of the current node.
    pub fn parent(&self) -> (r: Option<&SyntaxNode>)
        ensures
            refers_to(r, node_at(self.nodes@, match self.current() {
                Some(id) => parent_link(self.nodes@, id as int),
                None => None,
            })),
    {
        match self.current_parent_id() {
            Some(p) => self.node(p),
            None => None,
        }
    }

    /// The parent of the current node with its id.
    pub fn parent_with_id(&self) -> (r: Option<(NodeId, &SyntaxNode)>)
        ensures
            refers_with_id(self.nodes@, r, match self.current() {
                Some(id) => parent_link(self.nodes@, id as int),
                None => None,
            }),
    {
        self.with_id(self.current_parent_id())
    }

    /// The id of the ancestor of the current node that lies `n + 1` levels up (0 is the
    /// parent).
    pub fn ancestor_id(&self, n: usize) -> (r: Option<NodeId>)
        ensures
            r == (match self.current() {
                Some(id) => ancestor_link(self.nodes@, id as int, n as int),
                None => None,
            }),
    {
        match self.current_node_id {
            Some(id) => self.ancestor_id_of(id, n),
            None => None,
        }
    }

    /// The ancestor of the current node that lies `n + 1` levels up (0 is the parent).
    pub fn ancestor(&self, n: usize) -> (r: Option<&SyntaxNode>)
        ensures
            refers_to(r, node_at(self.nodes@, match self.current() {
                Some(id) => ancestor_link(self.nodes@, id as int, n as int),
                None => None,
            })),
    {
        match self.ancestor_id(n) {
            Some(a) => self.node(a),
            None => None,
        }
    }

    /// The ancestor of the current node that lies `n + 1` levels up, with its id.
    pub fn ancestor_with_id(&self, n: usize) -> (r: Option<(NodeId, &SyntaxNode)>)
        ensures
            refers_with_id(self.nodes@, r, match self.current() {
                Some(id) => ancestor_link(self.nodes@, id as int, n as int),
                None => None,
            }),
    {
        self.with_id(self.ancestor_id(n))
    }

    /// The id of the parent of node `node_id`.
    pub fn parent_id_of(&self, node_id: NodeId) -> (r: Option<NodeId>)
        ensures
            r == parent_link(self.nodes@, node_id as int),
    {
        self.parent_id(node_id)
    }

    /// The parent of node `node_id`.
    pub fn parent_of(&self, node_id: NodeId) -> (r: Option<&SyntaxNode>)
        ensures
            refers_to(r, node_at(self.nodes@, parent_link(self.nodes@, node_id as int))),
    {
        match self.parent_id(node_id) {
            Some(p) => self.node(p),
            None => None,
        }
    }

    /// The ancestors of the current node, from its parent up to the root.
    pub open spec fn current_chain(&self) -> Seq<int> {
        match self.current_node_id {
            Some(id) => ancestor_chain(self.nodes@, id as int),
            None => Seq::empty(),
        }
    }

    /// The ancestors of node `node_id` with their ids, from its parent up to the root.
    fn chain_with_ids(&self, node_id: NodeId) -> (r: Vec<(NodeId, &SyntaxNode)>)
        ensures
            r@.len() == ancestor_chain(self.nodes@, node_id as int).len(),
            forall|k: int|
                0 <= k < r@.len() ==> {
                    let c = #[trigger] ancestor_chain(self.nodes@, node_id as int)[k];
                    &&& r@[k].0 == c
                    &&& 0 <= c < self.nodes@.len()
                    &&& *r@[k].1 == self.nodes@[c]
                },
    {
        let ids = self.ancestors(node_id);
        let ghost chain = ancestor_chain(self.nodes@, node_id as int);
        proof {
            lemma_chain_precedes(self.nodes@, node_id as int);
            lemma_chain_step(self.nodes@, node_id as int);
        }
        let mut out: Vec<(NodeId, &SyntaxNode)> = Vec::new();
        let mut k: usize = 0;
        while k < ids.len()
            invariant
                k <= ids@.len(),
                ids@.len() == chain.len(),
                chain == ancestor_chain(self.nodes@, node_id as int),
                forall|j: int| 0 <= j < ids@.len() ==> ids@[j] as int == #[trigger] chain[j],
                forall|j: int| 0 <= j < chain.len() ==> 0 <= #[trigger] chain[j] < node_id,
                chain.len() > 0 ==> node_id < self.nodes@.len(),
                out@.len() == k,
                forall|j: int|
                    0 <= j < k ==> {
                        let c = #[trigger] chain[j];
                        &&& out@[j].0 == c
                        &&& 0 <= c < self.nodes@.len()
                        &&& *out@[j].1 == self.nodes@[c]
                    },
            decreases ids@.len() - k,
        {
            let id = ids[k];
            assert(chain[k as int] == id as int);
            out.push((id, &self.nodes[id]));
            k = k + 1;
        }
        out
    }

    /// The ancestors of the current node with their ids, from its parent up to the root.
    pub fn ancestors_with_ids(&self) -> (r: Vec<(NodeId, &SyntaxNode)>)
        ensures
            r@.len() == self.current_chain().len(),
            forall|k: int|
                0 <= k < r@.len() ==> {
                    let c = #[trigger] self.current_chain()[k];
                    &&& r@[k].0 == c
                    &&& 0 <= c < self.nodes@.len()
                    &&& *r@[k].1 == self.nodes@[c]
                },
    {
        match self.current_node_id {
            Some(id) => self.chain_with_ids(id),
            None => Vec::new(),
        }
    }

    /// The ancestors of node `node_id`, from its parent up to the root.
    pub fn ancestors_of(&self, node_id: NodeId) -> (r: Vec<&SyntaxNode>)
        ensures
            r@.len() == ancestor_chain(self.nodes@, node_id as int).len(),
            forall|k: int|
                0 <= k < r@.len() ==> *r@[k] == self.nodes@[#[trigger] ancestor_chain(
                    self.nodes@,
                    node_id as int,
                )[k]],
    {
        let pairs = self.chain_with_ids(node_id);
        let mut out: Vec<&SyntaxNode> = Vec::new();
        let mut k: usize = 0;
        while k < pairs.len()
            invariant
                k <= pairs@.len(),
                pairs@.len() == ancestor_chain(self.nodes@, node_id as int).len(),
                forall|j: int|
                    0 <= j < pairs@.len() ==> {
                        let c = #[trigger] ancestor_chain(self.nodes@, node_id as int)[j];
                        &&& pairs@[j].0 == c
                        &&& 0 <= c < self.nodes@.len()
                        &&& *pairs@[j].1 == self.nodes@[c]
                    },
                out@.len() == k,
                forall|j: int|
                    0 <= j < k ==> *out@[j] == self.nodes@[#[trigger] ancestor_chain(self.nodes@, node_id as int)[j]],
            decreases pairs@.len() - k,
        {
            let (_, n) = pairs[k];
            out.push(n);
            k = k + 1;
        }
        out
    }

    /// Whether some ancestor of the current node satisfies `predicate`: `true` only where the
    /// predicate gave `true` for one, `false` only where it gave `false` for each.
    pub fn has_ancestor<F: Fn(&SyntaxNode) -> bool>(&self, predicate: F) -> (r: bool)
        requires
            forall|k: int|
                0 <= k < self.current_chain().len() ==> predicate.requires(
                    (&self.nodes@[#[trigger] self.current_chain()[k]],),
                ),
        ensures
            r ==> exists|k: int|
                0 <= k < self.current_chain().len() && predicate.ensures(
                    (&self.nodes@[#[trigger] self.current_chain()[k]],),
                    true,
                ),
            !r ==> forall|k: int|
                0 <= k < self.current_chain().len() ==> predicate.ensures(
                    (&self.nodes@[#[trigger] self.current_chain()[k]],),
                    false,
                ),
    {
        match self.find_ancestor(predicate) {
            Some(_) => true,
            None => false,
        }
    }

    /// The ancestor of the current node, closest first, for which `predicate` gives `true`;
    /// none where it gives `false` for each.
    pub fn find_ancestor<F: Fn(&SyntaxNode) -> bool>(&self, predicate: F) -> (r: Option<&SyntaxNode>)
        requires
            forall|k: int|
                0 <= k < self.current_chain().len() ==> predicate.requires(
                    (&self.nodes@[#[trigger] self.current_chain()[k]],),
                ),
        ensures
            match r {
                Some(n) => exists|k: int|
                    0 <= k < self.current_chain().len() && *n == self.nodes@[#[trigger] self.current_chain()[k]]
                        && predicate.ensures((&self.nodes@[self.current_chain()[k]],), true) && forall|j: int|
                        0 <= j < k ==> predicate.ensures((&self.nodes@[#[trigger] self.current_chain()[j]],), false),
                None => forall|k: int|
                    0 <= k < self.current_chain().len() ==> predicate.ensures(
                        (&self.nodes@[#[trigger] self.current_chain()[k]],),
                        false,
                    ),
            },
    {
        let pairs = self.ancestors_with_ids();
        let ghost chain = self.current_chain();
        let mut k: usize = 0;
        while k < pairs.len()
            invariant
                k <= pairs@.len(),
                chain == self.current_chain(),
                pairs@.len() == chain.len(),
                forall|j: int|
                    0 <= j < pairs@.len() ==> {
                        let c = #[trigger] chain[j];
                        &&& pairs@[j].0 == c
                        &&& 0 <= c < self.nodes@.len()
                        &&& *pairs@[j].1 == self.nodes@[c]
                    },
                forall|j: int| 0 <= j < chain.len() ==> predicate.requires((&self.nodes@[#[trigger] chain[j]],)),
                forall|j: int| 0 <= j < k ==> predicate.ensures((&self.nodes@[#[trigger] chain[j]],), false),
            decreases pairs@.len() - k,
        {
            let (_, n) = pairs[k];
            assert(*n == self.nodes@[chain[k as int]]);
            if predicate(n) {
                return Some(n);
            }
            k = k + 1;
        }
        None
    }

    /// The node that starts at byte `offset`; where several do (a statements node and its
    /// first statement), the one met last, which is the innermost.
    pub fn node_id_for_offset(&self, offset: usize) -> (r: Option<NodeId>)
        ensures
            match r {
                Some(i) => i < self.nodes@.len() && self.nodes@[i as int].start == offset && forall|j: int|
                    i < j < self.nodes@.len() ==> (#[trigger] self.nodes@[j]).start != offset,
                None => forall|j: int| 0 <= j < self.nodes@.len() ==> (#[trigger] self.nodes@[j]).start != offset,
            },
    {
        let mut k = self.nodes.len();
        while k > 0
            invariant
                k <= self.nodes@.len(),
                forall|j: int| k <= j < self.nodes@.len() ==> (#[trigger] self.nodes@[j]).start != offset,
            decreases k,
        {
            if self.nodes[k - 1].start == offset {
                return Some(k - 1);
            }
            k = k - 1;
        }
        None
    }

    /// All the nodes.
    pub fn nodes(&self) -> (r: &Vec<SyntaxNode>)
        ensures
            r@ == self.nodes@,
    {
        &self.nodes
    }
}

impl Default for SemanticModel {
    fn default() -> (m: Self)
        ensures
            m.nodes@ == Seq::<SyntaxNode>::empty(),
            m.current() == None::<NodeId>,
    {
        SemanticModel::new()
    }
}

/// Popping right after a push makes the node that was current before the push current again.
pub proof fn lemma_push_then_pop(t: Seq<SyntaxNode>, current: Option<NodeId>, id: NodeId)
    requires
        id < t.len(),
        t[id as int].parent == current,
        current matches Some(c) ==> c < id,
    ensures
        parent_link(t, id as int) == current,
{
}

/// A node as the walk of the parse meets it: what the rules read of it, and where its
/// receiver and its value stand, so that they are recognized when the walk meets them.
pub struct WalkedNode {
    pub kind: NodeKind,
    pub start: usize,
    pub end: usize,
    pub keyword: Option<(usize, usize)>,
    pub end_keyword: Option<(usize, usize)>,
    pub name: Vec<u8>,
    /// The byte range of the receiver of a method call.
    pub receiver: Option<(usize, usize)>,
    /// The byte range of the value of an assignment.
    pub value: Option<(usize, usize)>,
}

/// Where the receiver and the value of a node stand, as its walked node gave them.
pub type ExpectedSpans = (Option<(usize, usize)>, Option<(usize, usize)>);

/// The innermost of the branches that are open: the last one, where there is one.
pub open spec fn innermost(s: Seq<NodeId>) -> Option<NodeId> {
    if s.len() > 0 {
        Some(s.last())
    } else {
        None
    }
}

/// The open branches after the innermost one is left: all but the last, or none left.
pub open spec fn after_leave(s: Seq<NodeId>) -> Seq<NodeId> {
    if s.len() > 0 {
        s.drop_last()
    } else {
        s
    }
}

/// `n` is the node that walked node `w` becomes under `parent`, before the walk meets any
/// node below it.
pub open spec fn fresh(n: SyntaxNode, w: WalkedNode, parent: Option<NodeId>) -> bool {
    &&& n.kind == w.kind
    &&& n.start == w.start
    &&& n.end == w.end
    &&& n.parent == parent
    &&& n.keyword == w.keyword
    &&& n.end_keyword == w.end_keyword
    &&& n.name@ == w.name@
    &&& n.receiver is None
    &&& n.arguments is None
    &&& n.value is None
    &&& n.children@.len() == 0
}

/// `b` is parent node `a` once its child `id`, walked as `w`, is met: the child is its last
/// child, its arguments where `a` is a call and the child an arguments node, and its receiver
/// or its value where the child stands where `a` expects one (`exp`) that it has not found yet.
pub open spec fn adopted(a: SyntaxNode, b: SyntaxNode, id: NodeId, w: WalkedNode, exp: ExpectedSpans) -> bool {
    &&& b.kind == a.kind
    &&& b.start == a.start
    &&& b.end == a.end
    &&& b.parent == a.parent
    &&& b.keyword == a.keyword
    &&& b.end_keyword == a.end_keyword
    &&& b.name@ == a.name@
    &&& b.children@ == a.children@.push(id)
    &&& b.arguments == (if a.kind == NodeKind::Call && w.kind == NodeKind::Arguments {
        Some(id)
    } else {
        a.arguments
    })
    &&& b.receiver == (if a.receiver is None && exp.0 == Some((w.start, w.end)) {
        Some(id)
    } else {
        a.receiver
    })
    &&& b.value == (if a.value is None && exp.1 == Some((w.start, w.end)) {
        Some(id)
    } else {
        a.value
    })
}

/// `new` is `old` once walked node `w` is met under `parent`: it is the last node, and its
/// parent adopts it; every other node stays as it was.
pub open spec fn entered(
    old: Seq<SyntaxNode>,
    exp: Seq<ExpectedSpans>,
    new: Seq<SyntaxNode>,
    w: WalkedNode,
    parent: Option<NodeId>,
) -> bool {
    &&& new.len() == old.len() + 1
    &&& fresh(new[old.len() as int], w, parent)
    &&& unchanged_but(old, new, parent)
    &&& parent matches Some(p) ==> adopted(old[p as int], new[p as int], old.len() as NodeId, w, exp[p as int])
}

/// Every node of `old` but `parent` stands unchanged in `new`.
#[verifier::opaque]
pub open spec fn unchanged_but(old: Seq<SyntaxNode>, new: Seq<SyntaxNode>, parent: Option<NodeId>) -> bool {
    forall|j: int| 0 <= j < old.len() && Some(j as usize) != parent ==> #[trigger] new[j] == old[j]
}

proof fn lemma_unchanged(old: Seq<SyntaxNode>, new: Seq<SyntaxNode>, parent: Option<NodeId>, j: int)
    requires
        unchanged_but(old, new, parent),
        0 <= j < old.len(),
        Some(j as usize) != parent,
    ensures
        new[j] == old[j],
{
    reveal(unchanged_but);
}

/// Meeting a node under an earlier node keeps every parent link matched by a child entry.
proof fn lemma_entered_parents(
    old: Seq<SyntaxNode>,
    exp: Seq<ExpectedSpans>,
    new: Seq<SyntaxNode>,
    w: WalkedNode,
    parent: Option<NodeId>,
)
    requires
        tree_wf(old),
        old.len() < usize::MAX,
        parent matches Some(p) ==> p < old.len(),
        entered(old, exp, new, w, parent),
    ensures
        parents_listed(new),
{
    let id = old.len() as int;
    assert forall|i: int| 0 <= i < new.len() && (#[trigger] new[i]).parent is Some implies {
        let p = new[i].parent->0 as int;
        &&& p < i
        &&& new[p].children@.contains(i as usize)
    } by {
        if i < id {
            if Some(i as usize) == parent {
                assert(adopted(old[i], new[i], id as NodeId, w, exp[i]));
            } else {
                lemma_unchanged(old, new, parent, i);
            }
            lemma_parent_listed(old, i);
            let q = old[i].parent->0 as int;
            let k = choose|k: int| 0 <= k < old[q].children@.len() && old[q].children@[k] == i as usize;
            if Some(q as usize) == parent {
                assert(adopted(old[q], new[q], id as NodeId, w, exp[q]));
                assert(new[q].children@[k] == i as usize);
            } else {
                lemma_unchanged(old, new, parent, q);
                assert(new[q].children@[k] == i as usize);
            }
        } else {
            let p = parent->0 as int;
            assert(new[p].children@ == old[p].children@.push(id as usize));
            assert(new[p].children@[old[p].children@.len() as int] == id as usize);
        }
    }
    reveal(parents_listed);
}

/// Meeting a node under an earlier node keeps every child entry matched by a parent link.
proof fn lemma_entered_children(
    old: Seq<SyntaxNode>,
    exp: Seq<ExpectedSpans>,
    new: Seq<SyntaxNode>,
    w: WalkedNode,
    parent: Option<NodeId>,
)
    requires
        tree_wf(old),
        old.len() < usize::MAX,
        parent matches Some(p) ==> p < old.len(),
        entered(old, exp, new, w, parent),
    ensures
        children_linked(new),
{
    let id = old.len() as int;
    assert forall|i: int, k: int| 0 <= i < new.len() && 0 <= k < new[i].children@.len() implies {
        let c = #[trigger] new[i].children@[k] as int;
        &&& i < c < new.len()
        &&& new[c].parent == Some(i as usize)
    } by {
        assert(i < id) by {
            if i == id {
                assert(new[id].children@.len() == 0);
            }
        }
        if Some(i as usize) == parent {
            assert(adopted(old[i], new[i], id as NodeId, w, exp[i]));
            if k < old[i].children@.len() {
                assert(new[i].children@[k] == old[i].children@[k]);
                lemma_child_linked(old, i, k);
                let oc = old[i].children@[k] as int;
                lemma_unchanged(old, new, parent, oc);
            } else {
                assert(new[i].children@[k] == id as usize);
            }
        } else {
            lemma_unchanged(old, new, parent, i);
            lemma_child_linked(old, i, k);
            let oc = old[i].children@[k] as int;
            if Some(oc as usize) == parent {
                assert(adopted(old[oc], new[oc], id as NodeId, w, exp[oc]));
            } else {
                lemma_unchanged(old, new, parent, oc);
            }
        }
    }
    reveal(children_linked);
}

/// Meeting a node under an earlier node keeps the parent and children links in agreement.
proof fn lemma_entered_wf(
    old: Seq<SyntaxNode>,
    exp: Seq<ExpectedSpans>,
    new: Seq<SyntaxNode>,
    w: WalkedNode,
    parent: Option<NodeId>,
)
    requires
        tree_wf(old),
        old.len() < usize::MAX,
        parent matches Some(p) ==> p < old.len(),
        entered(old, exp, new, w, parent),
    ensures
        tree_wf(new),
{
    lemma_entered_parents(old, exp, new, w, parent);
    lemma_entered_children(old, exp, new, w, parent);
}

/// Whether a node that a parent expects at `expected` stands at `span`.
fn stands_at(expected: Option<(usize, usize)>, span: (usize, usize)) -> (r: bool)
    ensures
        r == (expected == Some(span)),
{
    match expected {
        Some(e) => e.0 == span.0 && e.1 == span.1,
        None => false,
    }
}

/// Builds the semantic model while the walk of the parse meets its nodes: every node met
/// becomes the next node of the model, under the innermost branch that the walk is in.
pub struct Indexer {
    model: SemanticModel,
    parent_stack: Vec<NodeId>,
    expected: Vec<ExpectedSpans>,
}

impl Indexer {
    /// The nodes met so far.
    pub closed spec fn nodes(&self) -> Seq<SyntaxNode> {
        self.model.nodes@
    }

    /// The branches that the walk is in, outermost first.
    pub closed spec fn open_branches(&self) -> Seq<NodeId> {
        self.parent_stack@
    }

    /// Where each node met so far expects its receiver and its value.
    pub closed spec fn expected_spans(&self) -> Seq<ExpectedSpans> {
        self.expected@
    }

    /// The indexer's invariant: the links of the nodes agree, every node has its expected
    /// spans, and the open branches are nodes met so far.
    pub closed spec fn inv(&self) -> bool {
        &&& tree_wf(self.model.nodes@)
        &&& self.model.current_node_id is None
        &&& self.expected@.len() == self.model.nodes@.len()
        &&& forall|k: int|
            0 <= k < self.parent_stack@.len() ==> #[trigger] self.parent_stack@[k]
                < self.model.nodes@.len()
    }

    /// An indexer that has met no node.
    pub fn new() -> (r: Self)
        ensures
            r.inv(),
            r.nodes() == Seq::<SyntaxNode>::empty(),
            r.open_branches() == Seq::<NodeId>::empty(),
    {
        let r = Indexer { model: SemanticModel::new(), parent_stack: Vec::new(), expected: Vec::new() };
        proof {
            reveal(parents_listed);
            reveal(children_linked);
        }
        r
    }

    /// How many nodes were met so far.
    pub fn node_count(&self) -> (r: usize)
        ensures
            r == self.nodes().len(),
    {
        self.model.nodes.len()
    }

    fn add(&mut self, w: WalkedNode) -> (id: NodeId)
        requires
            old(self).inv(),
            old(self).nodes().len() < usize::MAX,
        ensures
            final(self).inv(),
            id == old(self).nodes().len(),
            entered(old(self).nodes(), old(self).expected_spans(), final(self).nodes(), w, innermost(old(self).open_branches())),
            final(self).open_branches() == old(self).open_branches(),
            final(self).expected_spans() == old(self).expected_spans().push((w.receiver, w.value)),
    {
        let ghost old_nodes = self.model.nodes@;
        let ghost old_exp = self.expected@;
        let parent = if self.parent_stack.len() > 0 {
            Some(self.parent_stack[self.parent_stack.len() - 1])
        } else {
            None
        };
        let span = (w.start, w.end);
        let walked_kind = w.kind;
        let node = SyntaxNode {
            kind: w.kind,
            start: w.start,
            end: w.end,
            parent: None,
            keyword: w.keyword,
            end_keyword: w.end_keyword,
            name: w.name,
            receiver: None,
            arguments: None,
            value: None,
            children: Vec::new(),
        };
        let id = self.model.add_node(node, parent);
        let ghost mid = self.model.nodes@;
        self.expected.push((w.receiver, w.value));
        if let Some(p) = parent {
            if self.model.nodes[p].kind == NodeKind::Call && walked_kind == NodeKind::Arguments {
                self.model.nodes[p].arguments = Some(id);
            }
            if self.model.nodes[p].receiver.is_none() && stands_at(self.expected[p].0, span) {
                self.model.nodes[p].receiver = Some(id);
            }
            if self.model.nodes[p].value.is_none() && stands_at(self.expected[p].1, span) {
                self.model.nodes[p].value = Some(id);
            }
        }
        proof {
            let new = self.model.nodes@;
            assert(new.len() == mid.len());
            assert forall|j: int| 0 <= j < old_nodes.len() && Some(j as usize) != parent implies #[trigger] new[j] == old_nodes[j] by {
                assert(new[j] == mid[j]);
            }
            assert(unchanged_but(old_nodes, new, parent)) by {
                reveal(unchanged_but);
            }
            assert(new[id as int] == mid[id as int]);
            if let Some(p) = parent {
                assert(old_exp[p as int] == self.expected@[p as int]);
                assert(adopted(old_nodes[p as int], new[p as int], id, w, old_exp[p as int]));
            }
            assert(entered(old_nodes, old_exp, new, w, parent));
            lemma_entered_wf(old_nodes, old_exp, new, w, parent);
        }
        id
    }

    /// Meet a node that has nodes below it: it becomes the next node, under the innermost
    /// open branch, and the innermost open branch itself until it is left.
    pub fn enter_branch(&mut self, node: WalkedNode) -> (id: NodeId)
        requires
            old(self).inv(),
            old(self).nodes().len() < usize::MAX,
        ensures
            final(self).inv(),
            id == old(self).nodes().len(),
            entered(old(self).nodes(), old(self).expected_spans(), final(self).nodes(), node, innermost(old(self).open_branches())),
            final(self).open_branches() == old(self).open_branches().push(id),
    {
        let id = self.add(node);
        self.parent_stack.push(id);
        id
    }

    /// Leave the innermost open branch; with none open, nothing changes.
    pub fn leave_branch(&mut self)
        requires
            old(self).inv(),
        ensures
            final(self).inv(),
            final(self).nodes() == old(self).nodes(),
            final(self).open_branches() == after_leave(old(self).open_branches()),
    {
        self.parent_stack.pop();
    }

    /// Meet a node without nodes below it: it becomes the next node, under the innermost
    /// open branch.
    pub fn enter_leaf(&mut self, node: WalkedNode) -> (id: NodeId)
        requires
            old(self).inv(),
            old(self).nodes().len() < usize::MAX,
        ensures
            final(self).inv(),
            id == old(self).nodes().len(),
            entered(old(self).nodes(), old(self).expected_spans(), final(self).nodes(), node, innermost(old(self).open_branches())),
            final(self).open_branches() == old(self).open_branches(),
    {
        self.add(node)
    }

    /// The model of the nodes met, whose parent and children links agree.
    pub fn index(self) -> (m: SemanticModel)
        requires
            self.inv(),
        ensures
            m.nodes@ == self.nodes(),
            m.current() == None::<NodeId>,
            tree_wf(m.nodes@),
    {
        self.model
    }
}

/// Leaving a branch right after entering it gives back the open branches as they were.
pub proof fn lemma_enter_then_leave(open: Seq<NodeId>, id: NodeId)
    ensures
        after_leave(open.push(id)) == open,
{
    assert(open.push(id).drop_last() =~= open);
}

} // verus!
