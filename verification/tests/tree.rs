use i3_alternate_focus::tree::focused_window;
use i3_alternate_focus::tree::Node;

fn leaf(id: i64, focused: bool) -> Node {
    Node { id, focused, focus: Vec::new(), nodes: Vec::new() }
}

fn branch(id: i64, focus: Vec<i64>, nodes: Vec<Node>) -> Node {
    Node { id, focused: false, focus, nodes }
}

#[test]
fn focused_root_is_found() {
    assert_eq!(focused_window(&leaf(1, true)), Some(1));
}

#[test]
fn focused_root_wins_over_its_children() {
    let root = Node { id: 1, focused: true, focus: vec![2], nodes: vec![leaf(2, true)] };
    assert_eq!(focused_window(&root), Some(1));
}

#[test]
fn walk_follows_the_focus_order() {
    let root = branch(
        1,
        vec![3, 2],
        vec![
            branch(2, vec![4], vec![leaf(4, true)]),
            branch(3, vec![6, 5], vec![leaf(5, false), leaf(6, true)]),
        ],
    );
    assert_eq!(focused_window(&root), Some(6));
}

#[test]
fn walk_looks_only_at_the_first_of_the_focus_order() {
    let root = branch(1, vec![2, 3], vec![leaf(2, false), leaf(3, true)]);
    assert_eq!(focused_window(&root), None);
}

#[test]
fn container_without_focus_order_ends_the_walk() {
    assert_eq!(focused_window(&leaf(1, false)), None);
    let root = branch(1, Vec::new(), vec![leaf(2, true)]);
    assert_eq!(focused_window(&root), None);
}

#[test]
fn named_child_that_is_missing_ends_the_walk() {
    let root = branch(1, vec![9], vec![leaf(2, true)]);
    assert_eq!(focused_window(&root), None);
    let empty = branch(1, vec![9], Vec::new());
    assert_eq!(focused_window(&empty), None);
}

#[test]
fn first_child_with_the_id_is_taken() {
    let root = branch(1, vec![2], vec![leaf(2, false), leaf(2, true)]);
    assert_eq!(focused_window(&root), None);
    let other = branch(1, vec![2], vec![branch(2, vec![7], vec![leaf(7, true)]), leaf(2, false)]);
    assert_eq!(focused_window(&other), Some(7));
}

#[test]
fn deep_tree_is_walked_to_the_bottom() {
    let mut node = leaf(1000, true);
    for id in (0..1000).rev() {
        let child_id = node.id;
        node = branch(id, vec![child_id], vec![node]);
    }
    assert_eq!(focused_window(&node), Some(1000));
}
