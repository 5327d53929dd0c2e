//! The window layout tree: each node holds an area and the window shown
//! there; splitting a window adds two children under its node. The tree is
//! an `id_tree::Tree`, seen here through what it holds.
use crate::layout::Rect;
use id_tree::{InsertBehavior, Node, NodeId, RemoveBehavior, Tree};
use vstd::prelude::*;

verus! {

#[verifier::external_type_specification]
#[verifier::external_body]
pub struct ExNodeId(NodeId);

#[verifier::external_type_specification]
#[verifier::external_body]
#[verifier::reject_recursive_types(T)]
pub struct ExTree<T>(Tree<T>);

/// What a layout node holds: an area and the id of the window shown there.
pub type LayoutData = (Rect, u128);

/// A node of the layout tree: its data, its parent and its children in order.
pub ghost struct LayoutNode {
    pub data: LayoutData,
    pub parent: Option<NodeId>,
    pub children: Seq<NodeId>,
}

/// The nodes that a layout tree holds, by id.
pub uninterp spec fn layout_nodes(t: Tree<LayoutData>) -> Map<NodeId, LayoutNode>;

/// The root of a layout tree, if it has one.
pub uninterp spec fn layout_root(t: Tree<LayoutData>) -> Option<NodeId>;

/// `s` without any copy of `x`.
pub open spec fn without(s: Seq<NodeId>, x: NodeId) -> Seq<NodeId>
    decreases s.len(),
{
    if s.len() == 0 {
        s
    } else if s.last() == x {
        without(s.drop_last(), x)
    } else {
        without(s.drop_last(), x).push(s.last())
    }
}

/// The nodes after a new node with `data` is put in under `parent`, or as
/// the root above the old root.
pub open spec fn nodes_after_insert(
    nodes: Map<NodeId, LayoutNode>,
    root: Option<NodeId>,
    id: NodeId,
    data: LayoutData,
    parent: Option<NodeId>,
) -> Map<NodeId, LayoutNode> {
    match parent {
        Some(p) => nodes.insert(id, LayoutNode { data, parent: Some(p), children: Seq::empty() }).insert(
            p,
            LayoutNode { children: nodes[p].children.push(id), ..nodes[p] },
        ),
        None => match root {
            Some(r) => nodes.insert(id, LayoutNode { data, parent: None, children: seq![r] }).insert(
                r,
                LayoutNode { parent: Some(id), ..nodes[r] },
            ),
            None => nodes.insert(id, LayoutNode { data, parent: None, children: Seq::empty() }),
        },
    }
}

/// The children of `id` with `p` as their parent, or with none.
pub open spec fn reparented(
    nodes: Map<NodeId, LayoutNode>,
    children: Seq<NodeId>,
    p: Option<NodeId>,
) -> Map<NodeId, LayoutNode> {
    Map::new(
        |k: NodeId| nodes.dom().contains(k),
        |k: NodeId|
            if children.contains(k) {
                LayoutNode { parent: p, ..nodes[k] }
            } else {
                nodes[k]
            },
    )
}

/// The nodes after node `id` is taken out and its children are lifted to
/// its parent, after the parent's other children.
pub open spec fn nodes_after_lift(nodes: Map<NodeId, LayoutNode>, id: NodeId) -> Map<NodeId, LayoutNode> {
    let n = nodes[id];
    let lifted = reparented(nodes, n.children, n.parent);
    match n.parent {
        Some(p) => lifted.insert(
            p,
            LayoutNode { children: without(nodes[p].children + n.children, id), ..lifted[p] },
        ).remove(id),
        None => lifted.remove(id),
    }
}

/// The ids that a pre-order walk visits from the ids on `stack`, for at most
/// `fuel` steps: a node, then the walk of its children in order. The walk
/// stops at an id that is not in the tree.
pub open spec fn pre_order(nodes: Map<NodeId, LayoutNode>, stack: Seq<NodeId>, fuel: nat) -> Seq<NodeId>
    decreases fuel,
{
    if fuel == 0 || stack.len() == 0 || !nodes.dom().contains(stack[0]) {
        Seq::empty()
    } else {
        seq![stack[0]] + pre_order(nodes, nodes[stack[0]].children + stack.drop_first(), (fuel - 1) as nat)
    }
}

/// A node as read from the tree.
pub struct LayoutEntry {
    pub data: LayoutData,
    pub parent: Option<NodeId>,
    pub children: Vec<NodeId>,
}

/// A copy of a node id is the same id (`NodeId::clone`).
pub assume_specification[ <NodeId as Clone>::clone ](id: &NodeId) -> (c: NodeId)
    ensures
        c == *id,
;

/// Equal node ids are the same id (`NodeId::eq`, derived).
pub assume_specification[ <NodeId as PartialEq>::eq ](a: &NodeId, b: &NodeId) -> (r: bool)
    ensures
        r == (*a == *b),
;

/// An empty tree (`Tree::new`).
#[verifier::external_body]
pub(crate) fn tree_new() -> (tree: Tree<LayoutData>)
    ensures
        layout_nodes(tree).dom() == Set::<NodeId>::empty(),
        layout_root(tree) is None,
{
    Tree::new()
}

/// Puts a node with `data` in the tree (`Tree::insert`): under `parent`
/// when one is given and it is in the tree, else, with no parent given, as
/// the new root above the old one. It fails, changing nothing, for a parent
/// that is not in the tree. The new id is one that the tree did not hold.
#[verifier::external_body]
pub(crate) fn tree_insert(t: &mut Tree<LayoutData>, data: LayoutData, parent: Option<&NodeId>) -> (r: Option<NodeId>)
    ensures
        match parent {
            Some(p) => layout_nodes(*old(t)).dom().contains(*p),
            None => true,
        } ==> r is Some,
        match r {
            Some(id) => {
                &&& !layout_nodes(*old(t)).dom().contains(id)
                &&& layout_nodes(*final(t)) == nodes_after_insert(
                    layout_nodes(*old(t)),
                    layout_root(*old(t)),
                    id,
                    data,
                    match parent {
                        Some(p) => Some(*p),
                        None => None,
                    },
                )
                &&& layout_root(*final(t)) == match parent {
                    Some(p) => layout_root(*old(t)),
                    None => Some(id),
                }
            },
            None => {
                &&& *final(t) == *old(t)
            },
        },
{
    let behavior = match parent {
        Some(p) => InsertBehavior::UnderNode(p),
        None => InsertBehavior::AsRoot,
    };
    t.insert(Node::new(data), behavior).ok()
}

/// The root of the tree (`Tree::root_node_id`), copied.
#[verifier::external_body]
pub(crate) fn tree_root(t: &Tree<LayoutData>) -> (r: Option<NodeId>)
    ensures
        r == layout_root(*t),
{
    t.root_node_id().cloned()
}

/// The node of an id (`Tree::get`), its data and its relatives copied;
/// `None` for an id that the tree does not hold.
#[verifier::external_body]
pub(crate) fn tree_get(t: &Tree<LayoutData>, id: &NodeId) -> (r: Option<LayoutEntry>)
    ensures
        layout_nodes(*t).dom().contains(*id) <==> r is Some,
        r matches Some(e) ==> {
            &&& e.data == layout_nodes(*t)[*id].data
            &&& e.parent == layout_nodes(*t)[*id].parent
            &&& e.children@ == layout_nodes(*t)[*id].children
        },
{
    t.get(id).ok().map(|n| LayoutEntry { data: *n.data(), parent: n.parent().cloned(), children: n.children().clone() })
}

/// The ids of the subtree of `id` in pre-order (`Tree::traverse_pre_order_ids`),
/// collected; none for an id that the tree does not hold. The walk ends
/// after the ids it gives.
#[verifier::external_body]
pub(crate) fn tree_pre_order_ids(t: &Tree<LayoutData>, id: &NodeId) -> (ids: Vec<NodeId>)
    ensures
        ids@ == pre_order(layout_nodes(*t), seq![*id], ids@.len()),
        pre_order(layout_nodes(*t), seq![*id], ids@.len() + 1) == ids@,
{
    match t.traverse_pre_order_ids(id) {
        Ok(walk) => walk.collect(),
        Err(_) => Vec::new(),
    }
}

/// Takes node `id` out of the tree, its children lifted to its parent
/// (`Tree::remove_node` with `LiftChildren`). It fails, changing nothing,
/// for an id that the tree does not hold.
#[verifier::external_body]
pub(crate) fn tree_remove_lifting(t: &mut Tree<LayoutData>, id: NodeId) -> (ok: bool)
    ensures
        ok == layout_nodes(*old(t)).dom().contains(id),
        ok ==> layout_nodes(*final(t)) == nodes_after_lift(layout_nodes(*old(t)), id),
        ok ==> layout_root(*final(t)) == if layout_root(*old(t)) == Some(id) {
            None
        } else {
            layout_root(*old(t))
        },
        !ok ==> *final(t) == *old(t),
{
    t.remove_node(id, RemoveBehavior::LiftChildren).is_ok()
}

} // verus!
