use kludgine::component::Callback;
use kludgine::component::Component;
use kludgine::component::ControlEvent;
use kludgine::component::Label;
use kludgine::component::Message;
use kludgine::component::MouseButton;
use kludgine::component::Panel;
use kludgine::component::Translator;
use kludgine::context::Context;
use kludgine::context::EntityBuilder;
use kludgine::context::UserInterface;
use kludgine::math::Point;
use kludgine::KludgineError;

fn clicked() -> ControlEvent {
    ControlEvent::Clicked { button: MouseButton::Left, window_position: Point::new(3, 4) }
}

fn received_by(ui: &UserInterface, index: kludgine::arena::Index) -> Vec<Message> {
    ui.arena.get(index).unwrap().component.as_panel().unwrap().received.clone()
}

#[test]
fn an_emitted_event_reaches_the_parent_exactly_once() {
    let mut ui = UserInterface::new();
    let parent = EntityBuilder::new(None, Component::Panel(Panel::new())).insert(&mut ui).unwrap();
    let child = Context::new(parent)
        .insert_new_entity(Component::Label(Label::new("go".to_owned())))
        .callback(Translator::Tag(7))
        .insert(&mut ui)
        .unwrap();

    ui.emit(child, clicked()).unwrap();
    assert_eq!(received_by(&ui, parent), vec![Message::Tagged(7, clicked())]);

    // A second emission is a second delivery, nothing more.
    ui.emit(child, clicked()).unwrap();
    assert_eq!(
        received_by(&ui, parent),
        vec![Message::Tagged(7, clicked()), Message::Tagged(7, clicked())]
    );
}

#[test]
fn a_captured_callback_outlives_the_removed_child() {
    let mut ui = UserInterface::new();
    let parent = EntityBuilder::new(None, Component::Panel(Panel::new())).insert(&mut ui).unwrap();
    let child = Context::new(parent)
        .insert_new_entity(Component::Label(Label::new("go".to_owned())))
        .callback(Translator::Forward)
        .insert(&mut ui)
        .unwrap();

    // The callback captured the target when it was configured; it is not
    // a live lookup through the child.
    let callback = ui.arena.get(child).unwrap().callback.unwrap();
    Context::new(parent).remove(&mut ui, child).unwrap();

    callback.invoke(&mut ui, clicked()).unwrap();
    assert_eq!(received_by(&ui, parent), vec![Message::Control(clicked())]);
}

#[test]
fn a_dead_target_drops_the_event_quietly() {
    let mut ui = UserInterface::new();
    let parent = EntityBuilder::new(None, Component::Panel(Panel::new())).insert(&mut ui).unwrap();
    let callback = Callback::new(parent, Translator::Forward);
    Context::new(parent).remove(&mut ui, parent);

    assert_eq!(callback.invoke(&mut ui, clicked()), Ok(()));
}

#[test]
fn a_target_without_the_capability_fails_loudly() {
    let mut ui = UserInterface::new();
    let target = EntityBuilder::new(None, Component::Label(Label::new("t".to_owned())))
        .insert(&mut ui)
        .unwrap();
    let callback = Callback::new(target, Translator::Forward);
    assert_eq!(callback.invoke(&mut ui, clicked()), Err(KludgineError::UnhandledMessage));
}

#[test]
fn emitting_without_a_callback_is_a_no_op() {
    let mut ui = UserInterface::new();
    let parent = EntityBuilder::new(None, Component::Panel(Panel::new())).insert(&mut ui).unwrap();
    let child = Context::new(parent)
        .insert_new_entity(Component::Label(Label::new("mute".to_owned())))
        .insert(&mut ui)
        .unwrap();
    ui.emit(child, clicked()).unwrap();
    assert_eq!(received_by(&ui, parent), Vec::<Message>::new());
}
