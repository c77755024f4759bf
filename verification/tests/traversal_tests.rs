use kludgine::arena::ArenaIterator;
use kludgine::arena::HierarchicalArena;
use kludgine::arena::Index;
use kludgine::component::Component;
use kludgine::component::Panel;
use kludgine::node::AbsoluteBounds;
use kludgine::node::Node;
use kludgine::style::StyleSheet;
use kludgine::KludgineError;

fn panel_node() -> Node {
    Node::new(
        Component::Panel(Panel::new()),
        StyleSheet::default(),
        AbsoluteBounds::default(),
        true,
        None,
    )
}

#[test]
fn bfs_visits_every_reachable_node_exactly_once() {
    let mut arena = HierarchicalArena::new();
    let root_a = arena.insert(None, panel_node());
    let root_b = arena.insert(None, panel_node());
    let a1 = arena.insert(Some(root_a), panel_node());
    let a2 = arena.insert(Some(root_a), panel_node());
    let b1 = arena.insert(Some(root_b), panel_node());
    let a1x = arena.insert(Some(a1), panel_node());

    let order = arena.bfs_order().unwrap();
    let expected = vec![root_a, root_b, a1, a2, b1, a1x];
    assert_eq!(order.len(), expected.len());
    for index in &expected {
        assert_eq!(order.iter().filter(|o| *o == index).count(), 1);
    }
    // Roots come before their children.
    let position = |i: Index| order.iter().position(|o| *o == i).unwrap();
    assert!(position(root_a) < position(a1));
    assert!(position(a1) < position(a1x));
}

#[test]
fn iterator_walks_the_same_tree_stepwise() {
    let mut arena = HierarchicalArena::new();
    let root = arena.insert(None, panel_node());
    let child = arena.insert(Some(root), panel_node());

    let mut walk = arena.iter();
    assert_eq!(walk.next(), Ok(Some(root)));
    assert_eq!(walk.next(), Ok(Some(child)));
    assert_eq!(walk.next(), Ok(None));
}

#[test]
fn iterator_snapshot_does_not_see_nodes_inserted_mid_pass() {
    let mut arena = HierarchicalArena::new();
    let root = arena.insert(None, panel_node());
    let mut walk = arena.iter();
    assert_eq!(walk.next(), Ok(Some(root)));
    // A node inserted while the walk is in flight belongs to the next
    // pass.
    let late = arena.insert(Some(root), panel_node());
    assert_eq!(walk.next(), Ok(None));
    assert!(arena.contains(late));
}

#[test]
fn hand_built_cyclic_table_trips_the_cycle_guard() {
    let a = Index::new(0, 0);
    let b = Index::new(1, 0);
    // a lists b as its child and b lists a back: a cycle no consistent
    // arena would produce.
    let mut walk = ArenaIterator::over(vec![a], vec![vec![b], vec![a]]);
    assert_eq!(walk.next(), Ok(Some(a)));
    assert_eq!(walk.next(), Ok(Some(b)));
    assert_eq!(walk.next(), Err(KludgineError::CycleDetected));
}

#[test]
fn self_referential_table_trips_the_cycle_guard() {
    let a = Index::new(0, 0);
    let mut walk = ArenaIterator::over(vec![a, a], vec![vec![]]);
    assert_eq!(walk.next(), Ok(Some(a)));
    assert_eq!(walk.next(), Err(KludgineError::CycleDetected));
}
