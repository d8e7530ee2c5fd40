//! Finding the focused window in the window manager's layout tree.

use vstd::prelude::*;

verus! {

/// One container of the layout tree, with what is needed to follow the focus
/// down from it.
#[derive(Debug, PartialEq, Eq)]
pub struct Node {
    /// The window manager's handle for this container.
    pub id: i64,
    /// Whether this container is the one that has input focus.
    pub focused: bool,
    /// The ids of the children, most recently focused first.
    pub focus: Vec<i64>,
    /// The children of this container.
    pub nodes: Vec<Node>,
}

/// The position of the first of `nodes` whose id is `id`, on or behind
/// position `from`; the length of `nodes` if there is none.
pub open spec fn position_of(nodes: Seq<Node>, id: i64, from: int) -> int
    decreases nodes.len() - from,
{
    if from < 0 || from >= nodes.len() {
        nodes.len() as int
    } else if nodes[from].id == id {
        from
    } else {
        position_of(nodes, id, from + 1)
    }
}

/// The id of the container that has focus, found by walking down from
/// `node`: at each container that is not focused itself, the walk goes on in
/// the child that is named first in the focus order. There is no answer when
/// a container on the way names no child, or names one it does not have.
pub open spec fn focused_id(node: Node) -> Option<i64>
    decreases node,
{
    if node.focused {
        Some(node.id)
    } else if node.focus@.len() == 0 {
        None
    } else {
        let at = position_of(node.nodes@, node.focus@[0], 0);
        if 0 <= at < node.nodes@.len() {
            focused_id(node.nodes@[at])
        } else {
            None
        }
    }
}

/// The position of the first of `nodes` whose id is `id`.
fn find_child(nodes: &Vec<Node>, id: i64) -> (at: usize)
    ensures
        at == position_of(nodes@, id, 0),
        at <= nodes@.len(),
{
    let mut at: usize = 0;
    while at < nodes.len() && nodes[at].id != id
        invariant
            at <= nodes@.len(),
            position_of(nodes@, id, 0) == position_of(nodes@, id, at as int),
        decreases nodes@.len() - at,
    {
        at = at + 1;
    }
    at
}

/// Finds the window that has focus, see [`focused_id`].
pub fn focused_window(root: &Node) -> (found: Option<i64>)
    ensures
        found == focused_id(*root),
{
    let mut node = root;
    loop
        invariant
            focused_id(*node) == focused_id(*root),
        decreases node,
    {
        if node.focused {
            return Some(node.id);
        }
        if node.focus.len() == 0 {
            return None;
        }
        let at = find_child(&node.nodes, node.focus[0]);
        if at >= node.nodes.len() {
            return None;
        }
        node = &node.nodes[at];
    }
}

/// What [`position_of`] finds, counted from position `from`: the child there
/// has the id and no child between `from` and it has; or no child on or
/// behind `from` has the id and the length of `nodes` is given.
pub proof fn lemma_position_of(nodes: Seq<Node>, id: i64, from: int)
    requires
        0 <= from <= nodes.len(),
    ensures
        from <= position_of(nodes, id, from) <= nodes.len(),
        position_of(nodes, id, from) < nodes.len() ==> nodes[position_of(nodes, id, from)].id
            == id,
        forall|j: int| from <= j < position_of(nodes, id, from) ==> (#[trigger] nodes[j]).id != id,
    decreases nodes.len() - from,
{
    if from < nodes.len() && nodes[from].id != id {
        lemma_position_of(nodes, id, from + 1);
    }
}

} // verus!
