use kludgine::component::Component;
use kludgine::component::MouseButton;
use kludgine::component::Panel;
use kludgine::context::Element;
use kludgine::context::Context;
use kludgine::context::EntityBuilder;
use kludgine::context::UserInterface;
use kludgine::event::EventStatus;
use kludgine::math::Point;
use kludgine::math::Size;
use kludgine::style::Color;
use kludgine::style::ColorPair;
use kludgine::style::InteractionState;
use kludgine::style::Style;
use kludgine::style::StyleSheet;
use kludgine::theme::Classification;
use kludgine::theme::Minimal;
use kludgine::theme::Palette;

fn pair(level: u8) -> ColorPair {
    let color = Color::new(level, level, level, 255);
    ColorPair { light_color: color, dark_color: color }
}

fn four_variant_sheet() -> StyleSheet {
    StyleSheet {
        normal: Style::new().with_background_color(pair(1)),
        hover: Style::new().with_background_color(pair(2)),
        active: Style::new().with_background_color(pair(3)),
        focus: Style::new().with_background_color(pair(4)),
    }
}

#[test]
fn sheet_variants_round_trip_through_an_inserted_node() {
    let mut ui = UserInterface::new();
    let index = EntityBuilder::new(None, Component::Panel(Panel::new()))
        .style_sheet(four_variant_sheet())
        .insert(&mut ui)
        .unwrap();

    let sheet = Context::new(index).style_sheet(&ui).unwrap();

    // Under no interaction only the normal variant's properties appear.
    let rest = InteractionState { hovered: false, active: false, focused: false };
    assert_eq!(sheet.variant(rest), Style::new().with_background_color(pair(1)));

    // Each simulated transition yields exactly the matching variant.
    let hovered = InteractionState { hovered: true, active: false, focused: false };
    assert_eq!(sheet.variant(hovered), Style::new().with_background_color(pair(2)));
    let active = InteractionState { hovered: false, active: true, focused: false };
    assert_eq!(sheet.variant(active), Style::new().with_background_color(pair(3)));
    let focused = InteractionState { hovered: false, active: false, focused: true };
    assert_eq!(sheet.variant(focused), Style::new().with_background_color(pair(4)));

    // Active outranks hover, hover outranks focus.
    let all = InteractionState { hovered: true, active: true, focused: true };
    assert_eq!(sheet.variant(all), Style::new().with_background_color(pair(3)));
    let hovered_focused = InteractionState { hovered: true, active: false, focused: true };
    assert_eq!(sheet.variant(hovered_focused), Style::new().with_background_color(pair(2)));
}

#[test]
fn later_merged_styles_override_property_by_property() {
    let base = Style::new().with_background_color(pair(1)).with_scrollbar_size(10);
    let overlay = Style::new().with_background_color(pair(2));
    let merged = base.merged_with(overlay);
    assert_eq!(merged.background_color, Some(pair(2)));
    assert_eq!(merged.scrollbar_size, Some(10));
}

#[test]
fn minimal_theme_resolves_primary_controls_by_state() {
    let minimal = Minimal::new("Roboto".to_owned(), Palette::default());
    let theme = minimal.theme();
    assert_eq!(theme.rules.len(), 16);

    let rest = Classification::new(
        None,
        vec!["is-primary".to_owned()],
        InteractionState { hovered: false, active: false, focused: false },
    );
    let style = theme.style_for(&rest);
    assert_eq!(style.background_color.unwrap().light_color, minimal.palette.primary.normal);

    let active = Classification::new(
        None,
        vec!["is-primary".to_owned()],
        InteractionState { hovered: false, active: true, focused: false },
    );
    let style = theme.style_for(&active);
    assert_eq!(style.background_color.unwrap().light_color, minimal.palette.primary.darker);

    let hovered = Classification::new(
        None,
        vec!["is-primary".to_owned()],
        InteractionState { hovered: true, active: false, focused: false },
    );
    let style = theme.style_for(&hovered);
    assert_eq!(style.background_color.unwrap().light_color, minimal.palette.primary.lighter);
}

#[test]
fn minimal_theme_styles_the_root_background() {
    let minimal = Minimal::new("Roboto".to_owned(), Palette::default());
    let theme = minimal.theme();
    let classification = Classification::new(
        Some("root".to_owned()),
        Vec::new(),
        InteractionState { hovered: false, active: false, focused: false },
    );
    let style = theme.style_for(&classification);
    assert_eq!(
        style.background_color.unwrap().light_color,
        minimal.palette.light.default_background.normal
    );
    // The base foreground cascades through untouched.
    assert_eq!(
        style.foreground_color.unwrap().dark_color,
        minimal.palette.dark.control_text.normal
    );
}

#[test]
fn minimal_theme_marks_the_focused_focusable_with_the_accent() {
    let minimal = Minimal::new("Roboto".to_owned(), Palette::default());
    let theme = minimal.theme();
    let focused = Classification::new(
        None,
        vec!["focusable".to_owned()],
        InteractionState { hovered: false, active: false, focused: true },
    );
    let style = theme.style_for(&focused);
    let border = style.border.unwrap();
    assert_eq!(border.top.unwrap().color.light_color, minimal.palette.primary.normal);

    let unfocused = Classification::new(
        None,
        vec!["focusable".to_owned()],
        InteractionState { hovered: false, active: false, focused: false },
    );
    let style = theme.style_for(&unfocused);
    let border = style.border.unwrap();
    assert_eq!(
        border.top.unwrap().color.light_color,
        minimal.palette.light.control_background.darker
    );
}

#[test]
fn scrollbar_grip_alpha_follows_interaction() {
    let minimal = Minimal::new("Roboto".to_owned(), Palette::default());
    let theme = minimal.theme();
    let quiet = Classification::new(
        None,
        vec!["scrollbar".to_owned()],
        InteractionState { hovered: false, active: false, focused: false },
    );
    assert_eq!(theme.style_for(&quiet).scrollbar_grip_color.unwrap().light_color.alpha, 102);
    let hovered = Classification::new(
        None,
        vec!["scrollbar".to_owned()],
        InteractionState { hovered: true, active: false, focused: false },
    );
    assert_eq!(theme.style_for(&hovered).scrollbar_grip_color.unwrap().light_color.alpha, 204);
}

#[test]
fn pointer_rest_applies_the_hover_variant_in_render() {
    let mut ui = UserInterface::new();
    let panel = EntityBuilder::new(None, Component::Panel(Panel::new()))
        .style_sheet(four_variant_sheet())
        .insert(&mut ui)
        .unwrap();
    ui.layout(Size::new(100, 50)).unwrap();

    // Without the pointer, the normal variant's background is drawn.
    let elements = ui.render().unwrap();
    match &elements[0] {
        Element::Background { color, .. } => assert_eq!(*color, pair(1)),
        _ => unreachable!(),
    }

    // With the pointer resting on the node, its hover variant is drawn.
    assert_eq!(ui.mouse_moved(Some(Point::new(10, 10))), Ok(EventStatus::Processed));
    assert_eq!(ui.state.hovered(), Some(panel));
    let elements = ui.render().unwrap();
    match &elements[0] {
        Element::Background { color, .. } => assert_eq!(*color, pair(2)),
        _ => unreachable!(),
    }

    // The pointer moving off — or out of the window — clears the hover.
    assert_eq!(ui.mouse_moved(Some(Point::new(500, 500))), Ok(EventStatus::Ignored));
    assert_eq!(ui.state.hovered(), None);
    ui.mouse_moved(Some(Point::new(10, 10))).unwrap();
    ui.mouse_moved(None).unwrap();
    assert_eq!(ui.state.hovered(), None);

    // A pressed-and-hovered node draws its active variant: active
    // outranks hover.
    ui.mouse_moved(Some(Point::new(10, 10))).unwrap();
    ui.mouse_down(Point::new(10, 10), MouseButton::Left).unwrap();
    let elements = ui.render().unwrap();
    match &elements[0] {
        Element::Background { color, .. } => assert_eq!(*color, pair(3)),
        _ => unreachable!(),
    }
}

#[test]
fn removing_the_hovered_node_clears_the_hover_reference() {
    let mut ui = UserInterface::new();
    let root = EntityBuilder::new(None, Component::Panel(Panel::new()))
        .interactive(false)
        .insert(&mut ui)
        .unwrap();
    let child = Context::new(root)
        .insert_new_entity(Component::Panel(Panel::new()))
        .insert(&mut ui)
        .unwrap();
    ui.layout(Size::new(100, 50)).unwrap();
    ui.mouse_moved(Some(Point::new(10, 10))).unwrap();
    assert_eq!(ui.state.hovered(), Some(child));

    Context::new(root).remove(&mut ui, child).unwrap();
    assert_eq!(ui.state.hovered(), None);
}
