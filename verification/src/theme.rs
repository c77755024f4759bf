//! Theme cascade: predicates over a component's classification, and the
//! rules that merge styles for whichever predicates match.
//!
//! A theme holds a base style and an ordered list of rules. Resolving a
//! classification folds the matching rules' styles over the base, later
//! rules overriding earlier ones property by property.

use crate::style::Border;
use crate::style::Color;
use crate::style::ColorPair;
use crate::style::ComponentBorder;
use crate::style::ComponentPadding;
use crate::style::InteractionState;
use crate::style::Style;
use crate::math::Surround;
use vstd::prelude::*;

verus! {

/// What a theme rule can ask about a component: its id, its classes, and
/// its interaction state, combined with the usual connectives.
#[derive(Debug)]
pub enum Predicate {
    Id(String),
    Class(String),
    Hovered,
    Active,
    Focused,
    Not(Box<Predicate>),
    And(Box<Predicate>, Box<Predicate>),
    Or(Box<Predicate>, Box<Predicate>),
}

/// How a component presents itself to the theme: an optional id, its
/// classes, and its current interaction state.
#[derive(Clone, Debug)]
pub struct Classification {
    pub id: Option<String>,
    pub classes: Vec<String>,
    pub state: InteractionState,
}

impl Classification {
    pub fn new(id: Option<String>, classes: Vec<String>, state: InteractionState) -> (r:
        Classification)
        ensures
            r.id == id,
            r.classes == classes,
            r.state == state,
    {
        Classification { id, classes, state }
    }

    /// Whether one of the classes reads `class`.
    pub open spec fn spec_has_class(self, class: Seq<char>) -> bool {
        exists|i: int| 0 <= i < self.classes@.len() && self.classes@[i]@ == class
    }

    pub fn has_class(&self, class: &String) -> (r: bool)
        ensures
            r == self.spec_has_class(class@),
    {
        let mut i: usize = 0;
        while i < self.classes.len()
            invariant
                0 <= i <= self.classes@.len(),
                forall|j: int| 0 <= j < i ==> self.classes@[j]@ != class@,
            decreases self.classes@.len() - i,
        {
            if self.classes[i].eq(class) {
                return true;
            }
            i = i + 1;
        }
        false
    }
}

impl Predicate {
    /// Whether the predicate holds of the classification.
    pub open spec fn spec_matches(self, c: Classification) -> bool
        decreases self,
    {
        match self {
            Predicate::Id(id) => c.id matches Some(own) && own@ == id@,
            Predicate::Class(class) => c.spec_has_class(class@),
            Predicate::Hovered => c.state.hovered,
            Predicate::Active => c.state.active,
            Predicate::Focused => c.state.focused,
            Predicate::Not(inner) => !inner.spec_matches(c),
            Predicate::And(a, b) => a.spec_matches(c) && b.spec_matches(c),
            Predicate::Or(a, b) => a.spec_matches(c) || b.spec_matches(c),
        }
    }

    /// Evaluates the predicate against a classification.
    pub fn evaluate(&self, c: &Classification) -> (r: bool)
        ensures
            r == self.spec_matches(*c),
        decreases *self,
    {
        match self {
            Predicate::Id(id) => match &c.id {
                Some(own) => own.eq(id),
                None => false,
            },
            Predicate::Class(class) => c.has_class(class),
            Predicate::Hovered => c.state.hovered,
            Predicate::Active => c.state.active,
            Predicate::Focused => c.state.focused,
            Predicate::Not(inner) => !inner.evaluate(c),
            Predicate::And(a, b) => a.evaluate(c) && b.evaluate(c),
            Predicate::Or(a, b) => a.evaluate(c) || b.evaluate(c),
        }
    }
}

/// One cascade rule: when the predicate matches, the style is merged in.
#[derive(Debug)]
pub struct ThemeRule {
    pub predicate: Predicate,
    pub style: Style,
}

/// A theme: a font family, a base style, and the cascade rules, in the
/// order they are applied.
#[derive(Debug)]
pub struct Theme {
    pub font_family: String,
    pub base: Style,
    pub rules: Vec<ThemeRule>,
}

/// The base style with every matching rule's style merged over it, in
/// rule order.
pub open spec fn spec_apply_rules(rules: Seq<ThemeRule>, c: Classification, base: Style) -> Style
    decreases rules.len(),
{
    if rules.len() == 0 {
        base
    } else {
        let prev = spec_apply_rules(rules.drop_last(), c, base);
        if rules.last().predicate.spec_matches(c) {
            prev.spec_merged_with(rules.last().style)
        } else {
            prev
        }
    }
}

impl Theme {
    pub fn new(font_family: String, base: Style) -> (r: Theme)
        ensures
            r.font_family == font_family,
            r.base == base,
            r.rules@ == Seq::<ThemeRule>::empty(),
    {
        Theme { font_family, base, rules: Vec::new() }
    }

    /// The theme with one more cascade rule appended.
    pub fn when(self, predicate: Predicate, style: Style) -> (r: Theme)
        ensures
            r.font_family == self.font_family,
            r.base == self.base,
            r.rules@ == self.rules@.push(ThemeRule { predicate, style }),
    {
        let mut rules = self.rules;
        rules.push(ThemeRule { predicate, style });
        Theme { font_family: self.font_family, base: self.base, rules }
    }

    /// Resolves the style for a classification: the base style with every
    /// matching rule merged over it, later rules overriding earlier ones.
    pub fn style_for(&self, c: &Classification) -> (r: Style)
        ensures
            r == spec_apply_rules(self.rules@, *c, self.base),
    {
        let ghost rules = self.rules@;
        let mut style = self.base;
        let mut k: usize = 0;
        while k < self.rules.len()
            invariant
                rules == self.rules@,
                0 <= k <= rules.len(),
                style == spec_apply_rules(rules.take(k as int), *c, self.base),
            decreases rules.len() - k,
        {
            proof {
                assert(rules.take(k as int + 1).drop_last() =~= rules.take(k as int));
                assert(rules.take(k as int + 1).last() == rules[k as int]);
            }
            if self.rules[k].predicate.evaluate(c) {
                style = style.merged_with(self.rules[k].style);
            }
            k = k + 1;
        }
        proof {
            assert(rules.take(rules.len() as int) =~= rules);
        }
        style
    }
}

/// A trio of shades of one color.
#[derive(Clone, Copy, Debug, PartialEq, Eq, Structural)]
pub struct ShadeSet {
    pub normal: Color,
    pub lighter: Color,
    pub darker: Color,
}

/// The shade sets one brightness variant of a palette provides.
#[derive(Clone, Copy, Debug, PartialEq, Eq, Structural)]
pub struct PaletteShades {
    pub default_background: ShadeSet,
    pub control_text: ShadeSet,
    pub control_background: ShadeSet,
}

/// A theme's colors: an accent plus a light and a dark variant.
#[derive(Clone, Copy, Debug, PartialEq, Eq, Structural)]
pub struct Palette {
    pub primary: ShadeSet,
    pub light: PaletteShades,
    pub dark: PaletteShades,
}

pub open spec fn spec_grey(level: u8) -> Color {
    Color { red: level, green: level, blue: level, alpha: 255 }
}

pub open spec fn spec_default_palette() -> Palette {
    Palette {
        primary: ShadeSet {
            normal: Color { red: 66, green: 133, blue: 244, alpha: 255 },
            lighter: Color { red: 108, green: 160, blue: 247, alpha: 255 },
            darker: Color { red: 40, green: 100, blue: 200, alpha: 255 },
        },
        light: PaletteShades {
            default_background: ShadeSet {
                normal: spec_grey(245),
                lighter: spec_grey(255),
                darker: spec_grey(230),
            },
            control_text: ShadeSet {
                normal: spec_grey(20),
                lighter: spec_grey(60),
                darker: spec_grey(0),
            },
            control_background: ShadeSet {
                normal: spec_grey(220),
                lighter: spec_grey(235),
                darker: spec_grey(200),
            },
        },
        dark: PaletteShades {
            default_background: ShadeSet {
                normal: spec_grey(30),
                lighter: spec_grey(45),
                darker: spec_grey(15),
            },
            control_text: ShadeSet {
                normal: spec_grey(235),
                lighter: spec_grey(255),
                darker: spec_grey(210),
            },
            control_background: ShadeSet {
                normal: spec_grey(55),
                lighter: spec_grey(70),
                darker: spec_grey(40),
            },
        },
    }
}

impl Default for Palette {
    /// A neutral palette: a blue accent over greys.
    fn default() -> (r: Palette)
        ensures
            r == spec_default_palette(),
    {
        Palette {
            primary: ShadeSet {
                normal: Color::new(66, 133, 244, 255),
                lighter: Color::new(108, 160, 247, 255),
                darker: Color::new(40, 100, 200, 255),
            },
            light: PaletteShades {
                default_background: ShadeSet {
                    normal: Color::new(245, 245, 245, 255),
                    lighter: Color::new(255, 255, 255, 255),
                    darker: Color::new(230, 230, 230, 255),
                },
                control_text: ShadeSet {
                    normal: Color::new(20, 20, 20, 255),
                    lighter: Color::new(60, 60, 60, 255),
                    darker: Color::new(0, 0, 0, 255),
                },
                control_background: ShadeSet {
                    normal: Color::new(220, 220, 220, 255),
                    lighter: Color::new(235, 235, 235, 255),
                    darker: Color::new(200, 200, 200, 255),
                },
            },
            dark: PaletteShades {
                default_background: ShadeSet {
                    normal: Color::new(30, 30, 30, 255),
                    lighter: Color::new(45, 45, 45, 255),
                    darker: Color::new(15, 15, 15, 255),
                },
                control_text: ShadeSet {
                    normal: Color::new(235, 235, 235, 255),
                    lighter: Color::new(255, 255, 255, 255),
                    darker: Color::new(210, 210, 210, 255),
                },
                control_background: ShadeSet {
                    normal: Color::new(55, 55, 55, 255),
                    lighter: Color::new(70, 70, 70, 255),
                    darker: Color::new(40, 40, 40, 255),
                },
            },
        }
    }
}


/// A color pair using the same color for both brightness variants.
pub open spec fn spec_pair(light: Color, dark: Color) -> ColorPair {
    ColorPair { light_color: light, dark_color: dark }
}

/// The accent color on both sides of a pair, with its alpha replaced.
pub open spec fn spec_alpha_pair(color: Color, alpha: u8) -> ColorPair {
    ColorPair { light_color: Color { alpha, ..color }, dark_color: Color { alpha, ..color } }
}

/// Whether `p` asks for the given id.
pub open spec fn p_id(p: Predicate, name: Seq<char>) -> bool {
    match p {
        Predicate::Id(s) => s@ == name,
        _ => false,
    }
}

/// Whether `p` asks for the given class.
pub open spec fn p_class(p: Predicate, name: Seq<char>) -> bool {
    match p {
        Predicate::Class(s) => s@ == name,
        _ => false,
    }
}

/// Whether `p` asks for the given class on a hovered node.
pub open spec fn p_class_hovered(p: Predicate, name: Seq<char>) -> bool {
    match p {
        Predicate::And(a, b) => p_class(*a, name) && *b is Hovered,
        _ => false,
    }
}

/// Whether `p` asks for the given class on an active node.
pub open spec fn p_class_active(p: Predicate, name: Seq<char>) -> bool {
    match p {
        Predicate::And(a, b) => p_class(*a, name) && *b is Active,
        _ => false,
    }
}

/// Whether `p` asks for the given class on a focused node.
pub open spec fn p_class_focused(p: Predicate, name: Seq<char>) -> bool {
    match p {
        Predicate::And(a, b) => p_class(*a, name) && *b is Focused,
        _ => false,
    }
}

/// Whether `p` asks for an active node of one class that lacks another.
pub open spec fn p_class_without_active(
    p: Predicate,
    name: Seq<char>,
    excluded: Seq<char>,
) -> bool {
    match p {
        Predicate::And(a, b) => *b is Active && match *a {
            Predicate::And(c, d) => p_class(*c, name) && match *d {
                Predicate::Not(inner) => p_class(*inner, excluded),
                _ => false,
            },
            _ => false,
        },
        _ => false,
    }
}

/// Whether `p` asks for the given class on a hovered or active node.
pub open spec fn p_class_hovered_or_active(p: Predicate, name: Seq<char>) -> bool {
    match p {
        Predicate::And(a, b) => p_class(*a, name) && match *b {
            Predicate::Or(c, d) => *c is Hovered && *d is Active,
            _ => false,
        },
        _ => false,
    }
}

/// A minimal reference theme over a palette: a plain background for the
/// root, darker and lighter control backgrounds under activation and
/// hover, an accent for primary controls and focus rings, and quiet
/// scrollbars.
#[derive(Debug)]
pub struct Minimal {
    pub font_family: String,
    pub palette: Palette,
}

impl Minimal {
    pub fn new(font_family: String, palette: Palette) -> (r: Minimal)
        ensures
            r.font_family == font_family,
            r.palette == palette,
    {
        Minimal { font_family, palette }
    }

    /// Builds the theme: the base style sets the control text color, and
    /// sixteen cascade rules give every documented control class its
    /// backgrounds, paddings, borders, and scrollbar colors.
    pub fn theme(&self) -> (r: Theme)
        ensures
            r.font_family == self.font_family,
            r.base == (Style {
                foreground_color: Some(
                    spec_pair(
                        self.palette.light.control_text.normal,
                        self.palette.dark.control_text.normal,
                    ),
                ),
                ..Style::spec_empty()
            }),
            r.rules@.len() == 16,
            p_id(r.rules@[0].predicate, "root"@) && r.rules@[0].style == (Style {
                background_color: Some(
                    spec_pair(
                        self.palette.light.default_background.normal,
                        self.palette.dark.default_background.normal,
                    ),
                ),
                ..Style::spec_empty()
            }),
            p_class(r.rules@[1].predicate, "padded-control"@) && r.rules@[1].style == (Style {
                padding: Some(ComponentPadding(Surround { left: 10, top: 10, right: 10, bottom: 10 })),
                ..Style::spec_empty()
            }),
            p_class(r.rules@[2].predicate, "control-background"@) && r.rules@[2].style == (Style {
                background_color: Some(
                    spec_pair(
                        self.palette.light.control_background.normal,
                        self.palette.dark.control_background.normal,
                    ),
                ),
                ..Style::spec_empty()
            }),
            p_class_without_active(r.rules@[3].predicate, "control-background"@, "focusable"@)
                && r.rules@[3].style == (Style {
                background_color: Some(
                    spec_pair(
                        self.palette.light.control_background.darker,
                        self.palette.dark.control_background.darker,
                    ),
                ),
                ..Style::spec_empty()
            }),
            p_class_hovered(r.rules@[4].predicate, "control-background"@) && r.rules@[4].style
                == (Style {
                background_color: Some(
                    spec_pair(
                        self.palette.light.control_background.lighter,
                        self.palette.dark.control_background.lighter,
                    ),
                ),
                ..Style::spec_empty()
            }),
            p_class(r.rules@[5].predicate, "is-primary"@) && r.rules@[5].style == (Style {
                background_color: Some(
                    spec_pair(self.palette.primary.normal, self.palette.primary.normal),
                ),
                ..Style::spec_empty()
            }),
            p_class_hovered(r.rules@[6].predicate, "is-primary"@) && r.rules@[6].style == (Style {
                background_color: Some(
                    spec_pair(self.palette.primary.lighter, self.palette.primary.lighter),
                ),
                ..Style::spec_empty()
            }),
            p_class_active(r.rules@[7].predicate, "is-primary"@) && r.rules@[7].style == (Style {
                background_color: Some(
                    spec_pair(self.palette.primary.darker, self.palette.primary.darker),
                ),
                ..Style::spec_empty()
            }),
            p_class(r.rules@[8].predicate, "focusable"@) && r.rules@[8].style == (Style {
                border: Some(self.spec_focus_border()),
                ..Style::spec_empty()
            }),
            p_class_focused(r.rules@[9].predicate, "focusable"@) && r.rules@[9].style == (Style {
                border: Some(
                    ComponentBorder {
                        left: Some(self.spec_accent_border()),
                        top: Some(self.spec_accent_border()),
                        right: Some(self.spec_accent_border()),
                        bottom: Some(self.spec_accent_border()),
                    },
                ),
                ..Style::spec_empty()
            }),
            p_class(r.rules@[10].predicate, "toast"@) && r.rules@[10].style == (Style {
                padding: Some(ComponentPadding(Surround { left: 10, top: 10, right: 10, bottom: 10 })),
                border: Some(self.spec_focus_border()),
                background_color: Some(
                    spec_pair(
                        self.palette.light.control_background.normal,
                        self.palette.dark.control_background.normal,
                    ),
                ),
                ..Style::spec_empty()
            }),
            p_class(r.rules@[11].predicate, "dialog"@) && r.rules@[11].style == (Style {
                dialog_button_spacing: Some(10),
                padding: Some(ComponentPadding(Surround { left: 10, top: 10, right: 10, bottom: 10 })),
                border: Some(self.spec_focus_border()),
                background_color: Some(
                    spec_pair(
                        self.palette.light.control_background.normal,
                        self.palette.dark.control_background.normal,
                    ),
                ),
                ..Style::spec_empty()
            }),
            p_class(r.rules@[12].predicate, "scroll"@) && r.rules@[12].style == (Style {
                scroll_gutter_color: Some(spec_alpha_pair(self.palette.primary.normal, 51)),
                ..Style::spec_empty()
            }),
            p_class_hovered(r.rules@[13].predicate, "scroll"@) && r.rules@[13].style == (Style {
                scroll_gutter_color: Some(spec_alpha_pair(self.palette.primary.normal, 102)),
                ..Style::spec_empty()
            }),
            p_class(r.rules@[14].predicate, "scrollbar"@) && r.rules@[14].style == (Style {
                scrollbar_size: Some(10),
                scrollbar_grip_color: Some(spec_alpha_pair(self.palette.primary.normal, 102)),
                ..Style::spec_empty()
            }),
            p_class_hovered_or_active(r.rules@[15].predicate, "scrollbar"@) && r.rules@[15].style
                == (Style {
                scrollbar_size: Some(10),
                scrollbar_grip_color: Some(spec_alpha_pair(self.palette.primary.normal, 204)),
                ..Style::spec_empty()
            }),
    {
        let focus_border = ComponentBorder::uniform(
            Border::new(
                2,
                ColorPair {
                    light_color: self.palette.light.control_background.darker,
                    dark_color: self.palette.dark.control_background.lighter,
                },
            ),
        );
        let control_background = ColorPair {
            light_color: self.palette.light.control_background.normal,
            dark_color: self.palette.dark.control_background.normal,
        };
        let primary_pair = ColorPair {
            light_color: self.palette.primary.normal,
            dark_color: self.palette.primary.normal,
        };
        Theme::new(
            self.font_family.clone(),
            Style::new().with_foreground_color(
                ColorPair {
                    light_color: self.palette.light.control_text.normal,
                    dark_color: self.palette.dark.control_text.normal,
                },
            ),
        ).when(
            Predicate::Id("root".to_owned()),
            Style::new().with_background_color(
                ColorPair {
                    light_color: self.palette.light.default_background.normal,
                    dark_color: self.palette.dark.default_background.normal,
                },
            ),
        ).when(
            Predicate::Class("padded-control".to_owned()),
            Style::new().with_padding(ComponentPadding(Surround::uniform(10))),
        ).when(
            Predicate::Class("control-background".to_owned()),
            Style::new().with_background_color(control_background),
        ).when(
            Predicate::And(
                Box::new(
                    Predicate::And(
                        Box::new(Predicate::Class("control-background".to_owned())),
                        Box::new(
                            Predicate::Not(Box::new(Predicate::Class("focusable".to_owned()))),
                        ),
                    ),
                ),
                Box::new(Predicate::Active),
            ),
            Style::new().with_background_color(
                ColorPair {
                    light_color: self.palette.light.control_background.darker,
                    dark_color: self.palette.dark.control_background.darker,
                },
            ),
        ).when(
            Predicate::And(
                Box::new(Predicate::Class("control-background".to_owned())),
                Box::new(Predicate::Hovered),
            ),
            Style::new().with_background_color(
                ColorPair {
                    light_color: self.palette.light.control_background.lighter,
                    dark_color: self.palette.dark.control_background.lighter,
                },
            ),
        ).when(
            Predicate::Class("is-primary".to_owned()),
            Style::new().with_background_color(primary_pair),
        ).when(
            Predicate::And(
                Box::new(Predicate::Class("is-primary".to_owned())),
                Box::new(Predicate::Hovered),
            ),
            Style::new().with_background_color(
                ColorPair {
                    light_color: self.palette.primary.lighter,
                    dark_color: self.palette.primary.lighter,
                },
            ),
        ).when(
            Predicate::And(
                Box::new(Predicate::Class("is-primary".to_owned())),
                Box::new(Predicate::Active),
            ),
            Style::new().with_background_color(
                ColorPair {
                    light_color: self.palette.primary.darker,
                    dark_color: self.palette.primary.darker,
                },
            ),
        ).when(
            Predicate::Class("focusable".to_owned()),
            Style::new().with_border(focus_border),
        ).when(
            Predicate::And(
                Box::new(Predicate::Class("focusable".to_owned())),
                Box::new(Predicate::Focused),
            ),
            Style::new().with_border(ComponentBorder::uniform(Border::new(2, primary_pair))),
        ).when(
            Predicate::Class("toast".to_owned()),
            Style::new().with_padding(ComponentPadding(Surround::uniform(10))).with_border(
                focus_border,
            ).with_background_color(control_background),
        ).when(
            Predicate::Class("dialog".to_owned()),
            Style::new().with_dialog_button_spacing(10).with_padding(
                ComponentPadding(Surround::uniform(10)),
            ).with_border(focus_border).with_background_color(control_background),
        ).when(
            Predicate::Class("scroll".to_owned()),
            Style::new().with_scroll_gutter_color(primary_pair.with_alpha(51)),
        ).when(
            Predicate::And(
                Box::new(Predicate::Class("scroll".to_owned())),
                Box::new(Predicate::Hovered),
            ),
            Style::new().with_scroll_gutter_color(primary_pair.with_alpha(102)),
        ).when(
            Predicate::Class("scrollbar".to_owned()),
            Style::new().with_scrollbar_size(10).with_scrollbar_grip_color(
                primary_pair.with_alpha(102),
            ),
        ).when(
            Predicate::And(
                Box::new(Predicate::Class("scrollbar".to_owned())),
                Box::new(
                    Predicate::Or(Box::new(Predicate::Hovered), Box::new(Predicate::Active)),
                ),
            ),
            Style::new().with_scrollbar_size(10).with_scrollbar_grip_color(
                primary_pair.with_alpha(204),
            ),
        )
    }

    /// The quiet border drawn around focusable controls and dialogs.
    pub open spec fn spec_focus_border(self) -> ComponentBorder {
        let border = Border {
            width: 2,
            color: spec_pair(
                self.palette.light.control_background.darker,
                self.palette.dark.control_background.lighter,
            ),
        };
        ComponentBorder {
            left: Some(border),
            top: Some(border),
            right: Some(border),
            bottom: Some(border),
        }
    }

    /// The accent border drawn around the focused control.
    pub open spec fn spec_accent_border(self) -> Border {
        Border {
            width: 2,
            color: spec_pair(self.palette.primary.normal, self.palette.primary.normal),
        }
    }
}

impl Default for Minimal {
    /// The minimal theme over the default palette.
    fn default() -> (r: Minimal)
        ensures
            r.font_family@ == "Roboto"@,
            r.palette == spec_default_palette(),
    {
        Minimal::new("Roboto".to_owned(), Palette::default())
    }
}

} // verus!
