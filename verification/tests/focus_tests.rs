use kludgine::component::Component;
use kludgine::component::Panel;
use kludgine::context::Context;
use kludgine::context::EntityBuilder;
use kludgine::context::UserInterface;

fn panel() -> Component {
    Component::Panel(Panel::new())
}

#[test]
fn at_most_one_node_per_layer_is_focused() {
    let mut ui = UserInterface::new();
    let root = EntityBuilder::new(None, panel()).insert(&mut ui).unwrap();
    let a = EntityBuilder::new(Some(root), panel()).insert(&mut ui).unwrap();
    let b = EntityBuilder::new(Some(root), panel()).insert(&mut ui).unwrap();

    Context::new(a).focus(&mut ui).unwrap();
    assert!(Context::new(a).is_focused(&ui));
    assert!(!Context::new(b).is_focused(&ui));

    // Focusing b steals the layer's single focus slot from a.
    Context::new(b).focus(&mut ui).unwrap();
    assert!(!Context::new(a).is_focused(&ui));
    assert!(Context::new(b).is_focused(&ui));
    assert_eq!(ui.state.focus(root), Some(b));
}

#[test]
fn blur_always_clears_the_focus() {
    let mut ui = UserInterface::new();
    let root = EntityBuilder::new(None, panel()).insert(&mut ui).unwrap();
    let a = EntityBuilder::new(Some(root), panel()).insert(&mut ui).unwrap();

    Context::new(a).focus(&mut ui).unwrap();
    assert_eq!(ui.state.focus(root), Some(a));
    Context::new(a).blur(&mut ui).unwrap();
    assert_eq!(ui.state.focus(root), None);

    // Blurring again is harmless.
    Context::new(a).blur(&mut ui).unwrap();
    assert_eq!(ui.state.focus(root), None);
}

#[test]
fn removing_the_focused_node_clears_the_focus_reference() {
    let mut ui = UserInterface::new();
    let root = EntityBuilder::new(None, panel()).insert(&mut ui).unwrap();
    let a = EntityBuilder::new(Some(root), panel()).insert(&mut ui).unwrap();

    Context::new(a).focus(&mut ui).unwrap();
    assert_eq!(ui.state.focus(root), Some(a));

    Context::new(root).remove(&mut ui, a).unwrap();
    assert_eq!(ui.state.focus(root), None);
    assert!(!ui.arena.contains(a));
}

#[test]
fn layers_keep_independent_focus_scopes() {
    let mut ui = UserInterface::new();
    let first = EntityBuilder::new(None, panel()).insert(&mut ui).unwrap();
    let second = EntityBuilder::new(None, panel()).insert(&mut ui).unwrap();
    let a = EntityBuilder::new(Some(first), panel()).insert(&mut ui).unwrap();
    let b = EntityBuilder::new(Some(second), panel()).insert(&mut ui).unwrap();

    Context::new(a).focus(&mut ui).unwrap();
    Context::new(b).focus(&mut ui).unwrap();
    assert_eq!(ui.state.focus(first), Some(a));
    assert_eq!(ui.state.focus(second), Some(b));

    Context::new(a).blur(&mut ui).unwrap();
    assert_eq!(ui.state.focus(first), None);
    assert_eq!(ui.state.focus(second), Some(b));
}

#[test]
fn activation_follows_the_same_layer_scope() {
    let mut ui = UserInterface::new();
    let root = EntityBuilder::new(None, panel()).insert(&mut ui).unwrap();
    let a = EntityBuilder::new(Some(root), panel()).insert(&mut ui).unwrap();

    Context::new(a).activate(&mut ui).unwrap();
    assert_eq!(ui.state.active(root), Some(a));
    Context::new(a).deactivate(&mut ui).unwrap();
    assert_eq!(ui.state.active(root), None);
}

#[test]
fn a_detached_node_cannot_take_focus() {
    let mut ui = UserInterface::new();
    let root = EntityBuilder::new(None, panel()).insert(&mut ui).unwrap();
    let parent = EntityBuilder::new(Some(root), panel()).insert(&mut ui).unwrap();
    let child = EntityBuilder::new(Some(parent), panel()).insert(&mut ui).unwrap();
    Context::new(root).remove(&mut ui, parent).unwrap();

    // The child's parent chain now hits a removed node.
    assert!(Context::new(child).focus(&mut ui).is_err());
}
