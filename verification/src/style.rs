//! Styles and style sheets.
//!
//! A [`Style`] is a mapping from property kind to value, here a struct with
//! one optional field per property. A [`StyleSheet`] bundles four variants,
//! one per interaction state; the tree applies whichever variant matches the
//! node's current state. Merging two styles lets a later cascade rule
//! override an earlier one property by property.

use crate::math::Surround;
use vstd::prelude::*;

verus! {

/// A color with an alpha channel, each channel in `0..=255`.
#[derive(Clone, Copy, Debug, PartialEq, Eq, Structural)]
pub struct Color {
    pub red: u8,
    pub green: u8,
    pub blue: u8,
    pub alpha: u8,
}

impl Color {
    pub fn new(red: u8, green: u8, blue: u8, alpha: u8) -> (r: Color)
        ensures
            r == (Color { red, green, blue, alpha }),
    {
        Color { red, green, blue, alpha }
    }

    /// The same color with its alpha channel replaced.
    pub fn with_alpha(self, alpha: u8) -> (r: Color)
        ensures
            r == (Color { alpha, ..self }),
    {
        Color { alpha, ..self }
    }
}

/// A pair of colors, one for a light theme and one for a dark theme.
#[derive(Clone, Copy, Debug, PartialEq, Eq, Structural)]
pub struct ColorPair {
    pub light_color: Color,
    pub dark_color: Color,
}

impl ColorPair {
    /// Both colors of the pair with their alpha channels replaced.
    pub fn with_alpha(self, alpha: u8) -> (r: ColorPair)
        ensures
            r == (ColorPair {
                light_color: Color { alpha, ..self.light_color },
                dark_color: Color { alpha, ..self.dark_color },
            }),
    {
        ColorPair {
            light_color: self.light_color.with_alpha(alpha),
            dark_color: self.dark_color.with_alpha(alpha),
        }
    }
}

/// One edge of a component border: a stroke width and its color.
#[derive(Clone, Copy, Debug, PartialEq, Eq, Structural)]
pub struct Border {
    pub width: i64,
    pub color: ColorPair,
}

impl Border {
    pub fn new(width: i64, color: ColorPair) -> (r: Border)
        ensures
            r == (Border { width, color }),
    {
        Border { width, color }
    }
}

/// Borders for the four edges of a component, each optional.
#[derive(Clone, Copy, Debug, PartialEq, Eq, Structural)]
pub struct ComponentBorder {
    pub left: Option<Border>,
    pub top: Option<Border>,
    pub right: Option<Border>,
    pub bottom: Option<Border>,
}

impl ComponentBorder {
    /// The same border on all four edges.
    pub fn uniform(border: Border) -> (r: ComponentBorder)
        ensures
            r == (ComponentBorder {
                left: Some(border),
                top: Some(border),
                right: Some(border),
                bottom: Some(border),
            }),
    {
        ComponentBorder {
            left: Some(border),
            top: Some(border),
            right: Some(border),
            bottom: Some(border),
        }
    }

    pub fn with_left(self, left: Border) -> (r: ComponentBorder)
        ensures
            r == (ComponentBorder { left: Some(left), ..self }),
    {
        ComponentBorder { left: Some(left), ..self }
    }

    pub fn with_right(self, right: Border) -> (r: ComponentBorder)
        ensures
            r == (ComponentBorder { right: Some(right), ..self }),
    {
        ComponentBorder { right: Some(right), ..self }
    }

    pub fn with_bottom(self, bottom: Border) -> (r: ComponentBorder)
        ensures
            r == (ComponentBorder { bottom: Some(bottom), ..self }),
    {
        ComponentBorder { bottom: Some(bottom), ..self }
    }

    pub fn with_top(self, top: Border) -> (r: ComponentBorder)
        ensures
            r == (ComponentBorder { top: Some(top), ..self }),
    {
        ComponentBorder { top: Some(top), ..self }
    }
}

/// Padding between a component's bounds and its content.
#[derive(Clone, Copy, Debug, PartialEq, Eq, Structural)]
pub struct ComponentPadding(pub Surround);

/// A set of style properties; a property left `None` is unset.
#[derive(Clone, Copy, Debug, PartialEq, Eq, Structural)]
pub struct Style {
    pub foreground_color: Option<ColorPair>,
    pub background_color: Option<ColorPair>,
    pub padding: Option<ComponentPadding>,
    pub border: Option<ComponentBorder>,
    pub scrollbar_size: Option<i64>,
    pub scrollbar_grip_color: Option<ColorPair>,
    pub scroll_gutter_color: Option<ColorPair>,
    pub dialog_button_spacing: Option<i64>,
}

impl Style {
    pub open spec fn spec_empty() -> Style {
        Style {
            foreground_color: None,
            background_color: None,
            padding: None,
            border: None,
            scrollbar_size: None,
            scrollbar_grip_color: None,
            scroll_gutter_color: None,
            dialog_button_spacing: None,
        }
    }

    /// A style with every property unset.
    pub fn new() -> (r: Style)
        ensures
            r == Style::spec_empty(),
    {
        Style {
            foreground_color: None,
            background_color: None,
            padding: None,
            border: None,
            scrollbar_size: None,
            scrollbar_grip_color: None,
            scroll_gutter_color: None,
            dialog_button_spacing: None,
        }
    }

    pub fn with_foreground_color(self, color: ColorPair) -> (r: Style)
        ensures
            r == (Style { foreground_color: Some(color), ..self }),
    {
        Style { foreground_color: Some(color), ..self }
    }

    pub fn with_background_color(self, color: ColorPair) -> (r: Style)
        ensures
            r == (Style { background_color: Some(color), ..self }),
    {
        Style { background_color: Some(color), ..self }
    }

    pub fn with_padding(self, padding: ComponentPadding) -> (r: Style)
        ensures
            r == (Style { padding: Some(padding), ..self }),
    {
        Style { padding: Some(padding), ..self }
    }

    pub fn with_border(self, border: ComponentBorder) -> (r: Style)
        ensures
            r == (Style { border: Some(border), ..self }),
    {
        Style { border: Some(border), ..self }
    }

    pub fn with_scrollbar_size(self, size: i64) -> (r: Style)
        ensures
            r == (Style { scrollbar_size: Some(size), ..self }),
    {
        Style { scrollbar_size: Some(size), ..self }
    }

    pub fn with_scrollbar_grip_color(self, color: ColorPair) -> (r: Style)
        ensures
            r == (Style { scrollbar_grip_color: Some(color), ..self }),
    {
        Style { scrollbar_grip_color: Some(color), ..self }
    }

    pub fn with_scroll_gutter_color(self, color: ColorPair) -> (r: Style)
        ensures
            r == (Style { scroll_gutter_color: Some(color), ..self }),
    {
        Style { scroll_gutter_color: Some(color), ..self }
    }

    pub fn with_dialog_button_spacing(self, spacing: i64) -> (r: Style)
        ensures
            r == (Style { dialog_button_spacing: Some(spacing), ..self }),
    {
        Style { dialog_button_spacing: Some(spacing), ..self }
    }

    /// `overlay` merged over `self`: every property set in `overlay` wins,
    /// every property unset in `overlay` keeps the value from `self`.
    pub open spec fn spec_merged_with(self, overlay: Style) -> Style {
        Style {
            foreground_color: if overlay.foreground_color is Some {
                overlay.foreground_color
            } else {
                self.foreground_color
            },
            background_color: if overlay.background_color is Some {
                overlay.background_color
            } else {
                self.background_color
            },
            padding: if overlay.padding is Some {
                overlay.padding
            } else {
                self.padding
            },
            border: if overlay.border is Some {
                overlay.border
            } else {
                self.border
            },
            scrollbar_size: if overlay.scrollbar_size is Some {
                overlay.scrollbar_size
            } else {
                self.scrollbar_size
            },
            scrollbar_grip_color: if overlay.scrollbar_grip_color is Some {
                overlay.scrollbar_grip_color
            } else {
                self.scrollbar_grip_color
            },
            scroll_gutter_color: if overlay.scroll_gutter_color is Some {
                overlay.scroll_gutter_color
            } else {
                self.scroll_gutter_color
            },
            dialog_button_spacing: if overlay.dialog_button_spacing is Some {
                overlay.dialog_button_spacing
            } else {
                self.dialog_button_spacing
            },
        }
    }

    pub fn merged_with(self, overlay: Style) -> (r: Style)
        ensures
            r == self.spec_merged_with(overlay),
    {
        Style {
            foreground_color: if overlay.foreground_color.is_some() {
                overlay.foreground_color
            } else {
                self.foreground_color
            },
            background_color: if overlay.background_color.is_some() {
                overlay.background_color
            } else {
                self.background_color
            },
            padding: if overlay.padding.is_some() {
                overlay.padding
            } else {
                self.padding
            },
            border: if overlay.border.is_some() {
                overlay.border
            } else {
                self.border
            },
            scrollbar_size: if overlay.scrollbar_size.is_some() {
                overlay.scrollbar_size
            } else {
                self.scrollbar_size
            },
            scrollbar_grip_color: if overlay.scrollbar_grip_color.is_some() {
                overlay.scrollbar_grip_color
            } else {
                self.scrollbar_grip_color
            },
            scroll_gutter_color: if overlay.scroll_gutter_color.is_some() {
                overlay.scroll_gutter_color
            } else {
                self.scroll_gutter_color
            },
            dialog_button_spacing: if overlay.dialog_button_spacing.is_some() {
                overlay.dialog_button_spacing
            } else {
                self.dialog_button_spacing
            },
        }
    }
}

impl Default for Style {
    /// The default style has every property unset.
    fn default() -> (r: Style)
        ensures
            r == Style::spec_empty(),
    {
        Style::new()
    }
}

/// A node's interaction state: whether the pointer is over it, whether it is
/// pressed, and whether it holds its layer's focus.
#[derive(Clone, Copy, Debug, PartialEq, Eq, Structural)]
pub struct InteractionState {
    pub hovered: bool,
    pub active: bool,
    pub focused: bool,
}

impl InteractionState {
    /// The state of a node under no interaction at all.
    pub fn none() -> (r: InteractionState)
        ensures
            r == InteractionState::spec_none(),
    {
        InteractionState { hovered: false, active: false, focused: false }
    }

    pub open spec fn spec_none() -> InteractionState {
        InteractionState { hovered: false, active: false, focused: false }
    }
}

/// Four style variants, one per interaction state.
#[derive(Clone, Copy, Debug, PartialEq, Eq, Structural)]
pub struct StyleSheet {
    pub normal: Style,
    pub hover: Style,
    pub active: Style,
    pub focus: Style,
}

impl StyleSheet {
    /// The variant that the given interaction state selects, and nothing
    /// merged in from any other variant. An active state takes precedence
    /// over a hovered one, a hovered state over a focused one.
    pub open spec fn spec_variant(self, state: InteractionState) -> Style {
        if state.active {
            self.active
        } else if state.hovered {
            self.hover
        } else if state.focused {
            self.focus
        } else {
            self.normal
        }
    }

    pub fn variant(&self, state: InteractionState) -> (r: Style)
        ensures
            r == self.spec_variant(state),
    {
        if state.active {
            self.active
        } else if state.hovered {
            self.hover
        } else if state.focused {
            self.focus
        } else {
            self.normal
        }
    }

    /// Interaction state selects exactly the matching sheet variant and
    /// nothing else: no interaction reads the normal variant, and each
    /// single flag reads its own variant untouched.
    pub proof fn lemma_variant_selection(self)
        ensures
            self.spec_variant(InteractionState::spec_none()) == self.normal,
            self.spec_variant(InteractionState { hovered: true, active: false, focused: false })
                == self.hover,
            self.spec_variant(InteractionState { hovered: false, active: true, focused: false })
                == self.active,
            self.spec_variant(InteractionState { hovered: false, active: false, focused: true })
                == self.focus,
    {
    }

    pub open spec fn spec_all(style: Style) -> StyleSheet {
        StyleSheet { normal: style, hover: style, active: style, focus: style }
    }

    /// A sheet whose four variants are all the same style.
    pub fn all(style: Style) -> (r: StyleSheet)
        ensures
            r == StyleSheet::spec_all(style),
    {
        StyleSheet { normal: style, hover: style, active: style, focus: style }
    }
}

impl Default for StyleSheet {
    /// The default sheet has every variant empty.
    fn default() -> (r: StyleSheet)
        ensures
            r == StyleSheet::spec_all(Style::spec_empty()),
    {
        StyleSheet::all(Style::new())
    }
}

} // verus!
