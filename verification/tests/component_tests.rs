use kludgine::component::Command;
use kludgine::component::Component;
use kludgine::component::ImageCommand;
use kludgine::component::Image;
use kludgine::component::Label;
use kludgine::component::LabelCommand;
use kludgine::component::Message;
use kludgine::component::MouseButton;
use kludgine::component::ControlEvent;
use kludgine::component::Panel;
use kludgine::component::Sprite;
use kludgine::component::Translator;
use kludgine::context::Context;
use kludgine::context::Element;
use kludgine::context::EntityBuilder;
use kludgine::context::UserInterface;
use kludgine::event::EventStatus;
use kludgine::math::Point;
use kludgine::math::Size;
use kludgine::KludgineError;

fn sprite() -> Sprite {
    Sprite::new(Size::new(16, 24), vec!["idle".to_owned(), "run".to_owned()])
}

#[test]
fn a_label_takes_a_new_value_by_command() {
    let mut ui = UserInterface::new();
    let label = EntityBuilder::new(None, Component::Label(Label::new("before".to_owned())))
        .insert(&mut ui)
        .unwrap();
    ui.arena
        .deliver_command(label, Command::Label(LabelCommand::SetValue("after".to_owned())))
        .unwrap();
    assert_eq!(ui.arena.get(label).unwrap().component.as_label().unwrap().value, "after");
}

#[test]
fn an_unknown_sprite_tag_is_a_recoverable_resource_failure() {
    let mut ui = UserInterface::new();
    let image = EntityBuilder::new(None, Component::Image(Image::new(sprite())))
        .insert(&mut ui)
        .unwrap();
    assert_eq!(
        ui.arena.deliver_command(image, Command::Image(ImageCommand::SetTag(Some("fly".to_owned())))),
        Err(KludgineError::ResourceMissing)
    );
    assert_eq!(
        ui.arena.deliver_command(image, Command::Image(ImageCommand::SetTag(Some("run".to_owned())))),
        Ok(())
    );
    assert_eq!(
        ui.arena.get(image).unwrap().component.as_image().unwrap().sprite.current_tag,
        Some("run".to_owned())
    );
}

#[test]
fn a_command_of_the_wrong_kind_fails_loudly() {
    let mut ui = UserInterface::new();
    let label = EntityBuilder::new(None, Component::Label(Label::new("x".to_owned())))
        .insert(&mut ui)
        .unwrap();
    assert_eq!(
        ui.arena.deliver_command(label, Command::Image(ImageCommand::SetTag(None))),
        Err(KludgineError::UnhandledMessage)
    );
}

#[test]
fn delivery_to_a_stale_index_is_a_lookup_failure() {
    let mut ui = UserInterface::new();
    let label = EntityBuilder::new(None, Component::Label(Label::new("x".to_owned())))
        .insert(&mut ui)
        .unwrap();
    ui.arena.remove(label).unwrap();
    assert_eq!(
        ui.arena.deliver_command(label, Command::Label(LabelCommand::SetValue("y".to_owned()))),
        Err(KludgineError::LookupFailed)
    );
    assert_eq!(
        ui.arena.deliver_message(label, Message::Control(ControlEvent::Clicked {
            button: MouseButton::Left,
            window_position: Point::new(0, 0),
        })),
        Err(KludgineError::LookupFailed)
    );
}

#[test]
fn an_update_tick_refreshes_image_frames() {
    let mut ui = UserInterface::new();
    let image = EntityBuilder::new(None, Component::Image(Image::new(sprite())))
        .insert(&mut ui)
        .unwrap();
    assert_eq!(ui.arena.get(image).unwrap().component.as_image().unwrap().current_frame, None);
    ui.update().unwrap();
    assert_eq!(
        ui.arena.get(image).unwrap().component.as_image().unwrap().current_frame,
        Some(Size::new(16, 24))
    );
}

#[test]
fn a_frame_cycle_lays_out_and_renders_a_label() {
    let mut ui = UserInterface::new();
    let root = EntityBuilder::new(None, Component::Panel(Panel::new())).insert(&mut ui).unwrap();
    let label = Context::new(root)
        .insert_new_entity(Component::Label(Label::new("hello".to_owned())))
        .insert(&mut ui)
        .unwrap();

    ui.update().unwrap();
    ui.layout(Size::new(200, 100)).unwrap();

    // The root was granted the whole window; the label fills it.
    let root_layout = ui.arena.get(root).unwrap().last_layout.unwrap();
    assert_eq!(root_layout.bounds.size, Size::new(200, 100));
    let label_layout = ui.arena.get(label).unwrap().last_layout.unwrap();
    assert_eq!(label_layout.bounds.size, Size::new(200, 100));

    let elements = ui.render().unwrap();
    let texts: Vec<&Element> = elements
        .iter()
        .filter(|e| matches!(e, Element::Text { .. }))
        .collect();
    assert_eq!(texts.len(), 1);
    match texts[0] {
        Element::Text { origin, text } => {
            assert_eq!(*origin, Point::new(0, 0));
            assert_eq!(text, "hello");
        },
        _ => unreachable!(),
    }
}

#[test]
fn mouse_press_and_release_drive_activation_and_clicks() {
    let mut ui = UserInterface::new();
    let root = EntityBuilder::new(None, Component::Panel(Panel::new()))
        .interactive(false)
        .insert(&mut ui)
        .unwrap();
    let label = Context::new(root)
        .insert_new_entity(Component::Label(Label::new("press me".to_owned())))
        .callback(Translator::Forward)
        .insert(&mut ui)
        .unwrap();
    ui.layout(Size::new(100, 50)).unwrap();

    let inside = Point::new(10, 10);
    assert_eq!(ui.mouse_down(inside, MouseButton::Left), Ok(EventStatus::Processed));
    assert_eq!(ui.state.active(root), Some(label));

    assert_eq!(ui.mouse_up(inside, MouseButton::Left), Ok(EventStatus::Processed));
    assert_eq!(ui.state.active(root), None);
    let received = &ui.arena.get(root).unwrap().component.as_panel().unwrap().received;
    assert_eq!(
        *received,
        vec![Message::Control(ControlEvent::Clicked {
            button: MouseButton::Left,
            window_position: inside,
        })]
    );

    // A press outside every node is ignored and changes nothing.
    let outside = Point::new(500, 500);
    assert_eq!(ui.mouse_down(outside, MouseButton::Left), Ok(EventStatus::Ignored));
    assert_eq!(ui.state.active(root), None);
}

#[test]
fn dragging_off_a_pressed_node_releases_its_activation() {
    let mut ui = UserInterface::new();
    let root = EntityBuilder::new(None, Component::Panel(Panel::new()))
        .interactive(false)
        .insert(&mut ui)
        .unwrap();
    let label = Context::new(root)
        .insert_new_entity(Component::Label(Label::new("drag".to_owned())))
        .insert(&mut ui)
        .unwrap();
    ui.layout(Size::new(100, 50)).unwrap();

    let inside = Point::new(10, 10);
    ui.mouse_down(inside, MouseButton::Left).unwrap();
    assert_eq!(ui.state.active(root), Some(label));

    // Dragging within the node keeps it pressed.
    ui.mouse_drag(Some(Point::new(20, 20)), MouseButton::Left).unwrap();
    assert_eq!(ui.state.active(root), Some(label));

    // Dragging past its edge releases it.
    ui.mouse_drag(Some(Point::new(500, 500)), MouseButton::Left).unwrap();
    assert_eq!(ui.state.active(root), None);

    // Leaving the window releases a pressed node too.
    ui.mouse_down(inside, MouseButton::Left).unwrap();
    ui.mouse_drag(None, MouseButton::Left).unwrap();
    assert_eq!(ui.state.active(root), None);
}
