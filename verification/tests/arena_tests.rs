use kludgine::arena::HierarchicalArena;
use kludgine::arena::Index;
use kludgine::component::Component;
use kludgine::component::Panel;
use kludgine::node::AbsoluteBounds;
use kludgine::node::Node;
use kludgine::style::StyleSheet;

fn panel_node() -> Node {
    Node::new(
        Component::Panel(Panel::new()),
        StyleSheet::default(),
        AbsoluteBounds::default(),
        true,
        None,
    )
}

#[test]
fn insert_makes_a_live_root() {
    let mut arena = HierarchicalArena::new();
    let index = arena.insert(None, panel_node());
    assert!(arena.contains(index));
    assert!(arena.get(index).is_some());
    let roots = arena.children(&None);
    assert_eq!(roots, vec![index]);
}

#[test]
fn parent_and_children_maps_agree_across_mutations() {
    let mut arena = HierarchicalArena::new();
    let root = arena.insert(None, panel_node());
    let a = arena.insert(Some(root), panel_node());
    let b = arena.insert(Some(root), panel_node());
    assert_eq!(arena.children(&Some(root)), vec![a, b]);
    assert_eq!(arena.parent(a), Some(Some(root)));
    assert_eq!(arena.parent(b), Some(Some(root)));

    // Reparent b under a: both maps move together.
    arena.set_parent(b, Some(a));
    assert_eq!(arena.children(&Some(root)), vec![a]);
    assert_eq!(arena.children(&Some(a)), vec![b]);
    assert_eq!(arena.parent(b), Some(Some(a)));

    // Detach b to the root set.
    arena.set_parent(b, None);
    assert_eq!(arena.children(&Some(a)), Vec::<Index>::new());
    assert_eq!(arena.children(&None), vec![root, b]);
    assert_eq!(arena.parent(b), Some(None));
}

#[test]
fn stale_index_fails_lookup_after_removal_and_reuse() {
    let mut arena = HierarchicalArena::new();
    let first = arena.insert(None, panel_node());
    assert!(arena.remove(first).is_some());
    assert!(!arena.contains(first));
    assert!(arena.get(first).is_none());

    // The freed slot is reused under a bumped generation: the new index
    // resolves, the stale one still does not.
    let second = arena.insert(None, panel_node());
    assert_eq!(second.slot, first.slot);
    assert!(second.generation > first.generation);
    assert!(arena.contains(second));
    assert!(!arena.contains(first));
}

#[test]
fn removing_a_stale_index_changes_nothing() {
    let mut arena = HierarchicalArena::new();
    let index = arena.insert(None, panel_node());
    assert!(arena.remove(index).is_some());
    assert!(arena.remove(index).is_none());
}

#[test]
fn removed_nodes_children_stay_resident_but_detached() {
    let mut arena = HierarchicalArena::new();
    let root = arena.insert(None, panel_node());
    let parent = arena.insert(Some(root), panel_node());
    let child = arena.insert(Some(parent), panel_node());

    assert!(arena.remove(parent).is_some());
    // The child is still resident and must be reaped explicitly, but it
    // sits in no children list and the traversal cannot reach it.
    assert!(arena.contains(child));
    assert_eq!(arena.parent(child), Some(Some(parent)));
    let order = arena.bfs_order().unwrap();
    assert_eq!(order, vec![root]);
    assert!(arena.remove(child).is_some());
}
