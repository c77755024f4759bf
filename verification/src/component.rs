//! Components and the messages that flow between them.
//!
//! A node's behavior is its component value. The capability set — content
//! size queries, command handling, click handling — is dispatched over the
//! [`Component`] enum, the tree's explicit tagged-union form of component
//! polymorphism. Outbound events travel through a [`Callback`]: a translator
//! plus a bound target index, captured when the callback is configured
//! rather than looked up when it fires.

use crate::arena::Index;
use crate::math::{Point, Rect, Size};
use crate::KludgineError;
use crate::KludgineResult;
use vstd::prelude::*;

verus! {

/// A pointer button.
#[derive(Clone, Copy, Debug, PartialEq, Eq, Structural)]
pub enum MouseButton {
    Left,
    Right,
    Middle,
    Other(u16),
}

/// An event a control emits to whoever configured its callback.
#[derive(Clone, Copy, Debug, PartialEq, Eq, Structural)]
pub enum ControlEvent {
    Clicked { button: MouseButton, window_position: Point },
}

/// A command a label accepts.
#[derive(Clone, Debug)]
pub enum LabelCommand {
    SetValue(String),
}

/// How an image is scaled into its layout rectangle.
#[derive(Clone, Copy, Debug, PartialEq, Eq, Structural)]
pub enum ImageScaling {
    AspectFit,
    AspectFill,
    Fill,
}

/// Options for an image component.
#[derive(Clone, Copy, Debug, PartialEq, Eq, Structural)]
pub struct ImageOptions {
    pub scaling: Option<ImageScaling>,
}

impl Default for ImageOptions {
    /// By default no scaling mode is set: frames render at their own size.
    fn default() -> (r: ImageOptions)
        ensures
            r == (ImageOptions { scaling: None::<ImageScaling> }),
    {
        ImageOptions { scaling: None }
    }
}

/// The tree's view of a sprite: a frame size and the tags its animation
/// sheet defines. Frame selection and interpolation happen outside the tree;
/// only the bookkeeping the components need is kept here.
#[derive(Clone, Debug)]
pub struct Sprite {
    pub frame_size: Size,
    pub tags: Vec<String>,
    pub current_tag: Option<String>,
}

impl Sprite {
    pub fn new(frame_size: Size, tags: Vec<String>) -> (r: Sprite)
        ensures
            r.frame_size == frame_size,
            r.tags == tags,
            r.current_tag is None,
    {
        Sprite { frame_size, tags, current_tag: None }
    }

    /// Whether some tag of this sprite reads `tag`.
    pub open spec fn spec_has_tag(self, tag: Seq<char>) -> bool {
        exists|i: int| 0 <= i < self.tags@.len() && self.tags@[i]@ == tag
    }

    pub fn has_tag(&self, tag: &String) -> (r: bool)
        ensures
            r == self.spec_has_tag(tag@),
    {
        let mut i: usize = 0;
        while i < self.tags.len()
            invariant
                0 <= i <= self.tags@.len(),
                forall|j: int| 0 <= j < i ==> self.tags@[j]@ != tag@,
            decreases self.tags@.len() - i,
        {
            if self.tags[i].eq(tag) {
                return true;
            }
            i = i + 1;
        }
        false
    }

    /// The sprite after a tag selection: the tag is taken when the sheet
    /// defines it (or when the selection is cleared), else nothing moves.
    pub open spec fn spec_after_set_tag(self, tag: Option<String>) -> Sprite {
        match tag {
            Some(t) => if self.spec_has_tag(t@) {
                Sprite { current_tag: Some(t), ..self }
            } else {
                self
            },
            None => Sprite { current_tag: None, ..self },
        }
    }

    /// Whether a tag selection succeeds: naming a tag the sheet does not
    /// define is a recoverable resource failure.
    pub open spec fn spec_set_tag_result(self, tag: Option<String>) -> KludgineResult<()> {
        match tag {
            Some(t) => if self.spec_has_tag(t@) {
                Ok(())
            } else {
                Err(KludgineError::ResourceMissing)
            },
            None => Ok(()),
        }
    }

    /// Selects a tag, or clears the selection.
    pub fn set_current_tag(&mut self, tag: Option<String>) -> (r: KludgineResult<()>)
        ensures
            *final(self) == old(self).spec_after_set_tag(tag),
            r == old(self).spec_set_tag_result(tag),
    {
        match tag {
            Some(t) => {
                if self.has_tag(&t) {
                    self.current_tag = Some(t);
                    Ok(())
                } else {
                    Err(KludgineError::ResourceMissing)
                }
            },
            None => {
                self.current_tag = None;
                Ok(())
            },
        }
    }
}

/// A command an image accepts.
#[derive(Clone, Debug)]
pub enum ImageCommand {
    SetSprite(Sprite),
    SetTag(Option<String>),
}

/// A single-line text control.
#[derive(Clone, Debug)]
pub struct Label {
    pub value: String,
}

impl Label {
    pub fn new(value: String) -> (r: Label)
        ensures
            r.value == value,
    {
        Label { value }
    }
}

/// A sprite-backed picture.
#[derive(Clone, Debug)]
pub struct Image {
    pub sprite: Sprite,
    pub current_frame: Option<Size>,
    pub options: ImageOptions,
}

impl Image {
    pub fn new(sprite: Sprite) -> (r: Image)
        ensures
            r.sprite == sprite,
            r.current_frame is None,
            r.options == (ImageOptions { scaling: None::<ImageScaling> }),
    {
        Image { sprite, current_frame: None, options: ImageOptions { scaling: None } }
    }

    pub fn options(self, options: ImageOptions) -> (r: Image)
        ensures
            r == (Image { options, ..self }),
    {
        Image { options, ..self }
    }

    /// Where the current frame is drawn inside `render_bounds`, by the
    /// image's scaling mode. With no mode set the frame keeps its own
    /// size at the rectangle's origin; `Fill` stretches it; the aspect
    /// modes scale it uniformly (in whole units, rounding down) to the
    /// rectangle's width or height — `AspectFit` picking the fit that
    /// stays inside, `AspectFill` the fit that covers. An image with no
    /// frame, or a degenerate frame, occupies nothing.
    pub open spec fn spec_target_bounds(self, render_bounds: Rect) -> Rect {
        match self.current_frame {
            None => Rect { origin: render_bounds.origin, size: Size { width: 0, height: 0 } },
            Some(frame) => {
                if frame.width <= 0 || frame.height <= 0 {
                    Rect { origin: render_bounds.origin, size: Size { width: 0, height: 0 } }
                } else {
                    match self.options.scaling {
                        None => Rect { origin: render_bounds.origin, size: frame },
                        Some(ImageScaling::Fill) => render_bounds,
                        Some(ImageScaling::AspectFit) => Rect {
                            origin: render_bounds.origin,
                            size: if crate::math::clamp_i64(
                                spec_scaled_height(frame, render_bounds.size.width as int),
                            ) <= render_bounds.size.height {
                                spec_horizontal_fit(frame, render_bounds.size.width as int)
                            } else {
                                spec_vertical_fit(frame, render_bounds.size.height as int)
                            },
                        },
                        Some(ImageScaling::AspectFill) => Rect {
                            origin: render_bounds.origin,
                            size: if crate::math::clamp_i64(
                                spec_scaled_height(frame, render_bounds.size.width as int),
                            ) >= render_bounds.size.height {
                                spec_horizontal_fit(frame, render_bounds.size.width as int)
                            } else {
                                spec_vertical_fit(frame, render_bounds.size.height as int)
                            },
                        },
                    }
                }
            },
        }
    }

    /// Computes where the current frame is drawn inside `render_bounds`.
    pub fn target_bounds(&self, render_bounds: &Rect) -> (r: Rect)
        ensures
            r == self.spec_target_bounds(*render_bounds),
    {
        let frame = match self.current_frame {
            Some(frame) => frame,
            None => {
                return Rect { origin: render_bounds.origin, size: Size { width: 0, height: 0 } };
            },
        };
        if frame.width <= 0 || frame.height <= 0 {
            return Rect { origin: render_bounds.origin, size: Size { width: 0, height: 0 } };
        }
        match self.options.scaling {
            None => Rect { origin: render_bounds.origin, size: frame },
            Some(ImageScaling::Fill) => *render_bounds,
            Some(ImageScaling::AspectFit) => Rect {
                origin: render_bounds.origin,
                size: if scaled_height(frame, render_bounds.size.width)
                    <= render_bounds.size.height {
                    horizontal_fit(frame, render_bounds.size.width)
                } else {
                    vertical_fit(frame, render_bounds.size.height)
                },
            },
            Some(ImageScaling::AspectFill) => Rect {
                origin: render_bounds.origin,
                size: if scaled_height(frame, render_bounds.size.width)
                    >= render_bounds.size.height {
                    horizontal_fit(frame, render_bounds.size.width)
                } else {
                    vertical_fit(frame, render_bounds.size.height)
                },
            },
        }
    }
}

/// The frame height after scaling the frame's width to `width`, rounding
/// down; a non-positive target width scales to nothing.
pub open spec fn spec_scaled_height(frame: Size, width: int) -> int {
    if width <= 0 {
        0
    } else {
        frame.height * width / (frame.width as int)
    }
}

/// The frame scaled uniformly so its width becomes `width`.
pub open spec fn spec_horizontal_fit(frame: Size, width: int) -> Size {
    if width <= 0 {
        Size { width: 0, height: 0 }
    } else {
        Size {
            width: width as i64,
            height: crate::math::clamp_i64(spec_scaled_height(frame, width)) as i64,
        }
    }
}

/// The frame scaled uniformly so its height becomes `height`.
pub open spec fn spec_vertical_fit(frame: Size, height: int) -> Size {
    if height <= 0 {
        Size { width: 0, height: 0 }
    } else {
        Size {
            width: crate::math::clamp_i64(
                frame.width * height / (frame.height as int),
            ) as i64,
            height: height as i64,
        }
    }
}

/// `spec_scaled_height` on machine integers, clamped into range.
fn scaled_height(frame: Size, width: i64) -> (r: i64)
    requires
        frame.width > 0,
        frame.height > 0,
    ensures
        r as int == crate::math::clamp_i64(spec_scaled_height(frame, width as int)),
{
    if width <= 0 {
        return 0;
    }
    proof {
        assert(0 <= frame.height as int * width as int <= i128::MAX) by (nonlinear_arith)
            requires
                0 < frame.height as int <= 0x7fff_ffff_ffff_ffff,
                0 < width as int <= 0x7fff_ffff_ffff_ffff,
        ;
    }
    let wide: i128 = frame.height as i128 * width as i128 / frame.width as i128;
    crate::math::clamp_to_i64(wide)
}

fn horizontal_fit(frame: Size, width: i64) -> (r: Size)
    requires
        frame.width > 0,
        frame.height > 0,
    ensures
        r == spec_horizontal_fit(frame, width as int),
{
    if width <= 0 {
        Size { width: 0, height: 0 }
    } else {
        Size { width, height: scaled_height(frame, width) }
    }
}

fn vertical_fit(frame: Size, height: i64) -> (r: Size)
    requires
        frame.width > 0,
        frame.height > 0,
    ensures
        r == spec_vertical_fit(frame, height as int),
{
    if height <= 0 {
        Size { width: 0, height: 0 }
    } else {
        proof {
            assert(0 <= frame.width as int * height as int <= i128::MAX) by (nonlinear_arith)
                requires
                    0 < frame.width as int <= 0x7fff_ffff_ffff_ffff,
                    0 < height as int <= 0x7fff_ffff_ffff_ffff,
            ;
        }
        let wide: i128 = frame.width as i128 * height as i128 / frame.height as i128;
        Size { width: crate::math::clamp_to_i64(wide), height }
    }
}


/// A plain container. It keeps every message delivered to it, so a parent
/// wired as a callback target can be examined afterwards.
#[derive(Clone, Debug)]
pub struct Panel {
    pub received: Vec<Message>,
}

impl Panel {
    pub fn new() -> (r: Panel)
        ensures
            r.received@ == Seq::<Message>::empty(),
    {
        Panel { received: Vec::new() }
    }
}

/// A message as a parent component receives it: the child's event, either
/// forwarded as-is or wrapped under the tag the parent chose.
#[derive(Clone, Copy, Debug, PartialEq, Eq, Structural)]
pub enum Message {
    Control(ControlEvent),
    Tagged(u64, ControlEvent),
}

/// The translation a callback applies to an emitted event, kept as data so
/// its effect is a function of the configuration alone.
#[derive(Clone, Copy, Debug, PartialEq, Eq, Structural)]
pub enum Translator {
    /// Hand the event through unchanged.
    Forward,
    /// Wrap the event under a tag of the parent's choosing.
    Tag(u64),
}

impl Translator {
    pub open spec fn spec_translate(self, event: ControlEvent) -> Message {
        match self {
            Translator::Forward => Message::Control(event),
            Translator::Tag(tag) => Message::Tagged(tag, event),
        }
    }

    pub fn translate(&self, event: ControlEvent) -> (r: Message)
        ensures
            r == self.spec_translate(event),
    {
        match self {
            Translator::Forward => Message::Control(event),
            Translator::Tag(tag) => Message::Tagged(*tag, event),
        }
    }
}

/// Event forwarding from a child to a parent-chosen message: a translator
/// plus the target's index, captured at configuration time. Invoking the
/// callback never needs the emitting child to still exist.
#[derive(Clone, Copy, Debug, PartialEq, Eq, Structural)]
pub struct Callback {
    pub target: Index,
    pub translator: Translator,
}

impl Callback {
    pub fn new(target: Index, translator: Translator) -> (r: Callback)
        ensures
            r == (Callback { target, translator }),
    {
        Callback { target, translator }
    }
}

/// A command addressed to a node, dispatched by component kind.
#[derive(Clone, Debug)]
pub enum Command {
    Label(LabelCommand),
    Image(ImageCommand),
}

/// A component value: the tree's tagged union over the component kinds it
/// ships with.
#[derive(Clone, Debug)]
pub enum Component {
    Label(Label),
    Image(Image),
    Panel(Panel),
}

impl Component {
    pub fn as_label(&self) -> (r: Option<&Label>)
        ensures
            match r {
                Some(l) => *self matches Component::Label(x) && *l == x,
                None => !(*self is Label),
            },
    {
        match self {
            Component::Label(label) => Some(label),
            _ => None,
        }
    }

    pub fn as_panel(&self) -> (r: Option<&Panel>)
        ensures
            match r {
                Some(p) => *self matches Component::Panel(x) && *p == x,
                None => !(*self is Panel),
            },
    {
        match self {
            Component::Panel(panel) => Some(panel),
            _ => None,
        }
    }

    pub fn as_image(&self) -> (r: Option<&Image>)
        ensures
            match r {
                Some(i) => *self matches Component::Image(x) && *i == x,
                None => !(*self is Image),
            },
    {
        match self {
            Component::Image(image) => Some(image),
            _ => None,
        }
    }

    /// The size the component asks for, given the constraints its parent
    /// offers. A constrained dimension is filled; an unconstrained one is
    /// zero, except that an image reports its current frame's size.
    ///
    /// Text measurement is performed outside the tree, so a label reports
    /// the same size as the default.
    pub open spec fn spec_content_size(self, width: Option<i64>, height: Option<i64>) -> Size {
        match self {
            Component::Image(image) => match image.current_frame {
                Some(frame) => frame,
                None => Size { width: 0, height: 0 },
            },
            _ => Size {
                width: match width {
                    Some(w) => w,
                    None => 0,
                },
                height: match height {
                    Some(h) => h,
                    None => 0,
                },
            },
        }
    }

    pub fn content_size(&self, width: Option<i64>, height: Option<i64>) -> (r: Size)
        ensures
            r == self.spec_content_size(width, height),
    {
        match self {
            Component::Image(image) => match image.current_frame {
                Some(frame) => frame,
                None => Size { width: 0, height: 0 },
            },
            _ => Size {
                width: match width {
                    Some(w) => w,
                    None => 0,
                },
                height: match height {
                    Some(h) => h,
                    None => 0,
                },
            },
        }
    }

    /// Runs the component's initialize hook, called once right after the
    /// node enters the arena. None of the components this crate ships
    /// with needs an outside resource at initialize time, so the hook
    /// succeeds and changes nothing; a failure would surface here.
    pub fn initialize(&mut self) -> (r: KludgineResult<()>)
        ensures
            *final(self) == *old(self),
            r is Ok,
    {
        Ok(())
    }

    /// The event a click on this component emits: a label reports the
    /// click to whoever configured its callback, other components ignore
    /// it.
    pub open spec fn spec_click_event(self, button: MouseButton, position: Point) -> Option<
        ControlEvent,
    > {
        match self {
            Component::Label(_) => Some(
                ControlEvent::Clicked { button, window_position: position },
            ),
            _ => None,
        }
    }

    /// The component's click handler.
    pub fn clicked(&self, button: MouseButton, position: Point) -> (r: Option<ControlEvent>)
        ensures
            r == self.spec_click_event(button, position),
    {
        match self {
            Component::Label(_) => Some(
                ControlEvent::Clicked { button, window_position: position },
            ),
            _ => None,
        }
    }

    /// What one update tick leaves of the component. An image refreshes
    /// its current frame from its sprite sheet; every other component's
    /// update hook is a no-op. Which frame of an animation is current is
    /// decided outside the tree; the frame size recorded here is the
    /// sheet's.
    pub open spec fn spec_after_update(self) -> Component {
        match self {
            Component::Image(image) => Component::Image(
                Image { current_frame: Some(image.sprite.frame_size), ..image },
            ),
            _ => self,
        }
    }

    /// Runs the component's update hook for one frame tick.
    pub fn run_update(&mut self)
        ensures
            *final(self) == old(self).spec_after_update(),
    {
        match self {
            Component::Image(image) => {
                image.current_frame = Some(image.sprite.frame_size);
            },
            _ => {},
        }
    }

    /// Whether a message delivery succeeds. A component that was not wired
    /// to receive messages fails loudly, because silently dropping an
    /// application message would be worse.
    pub open spec fn spec_message_result(self, message: Message) -> KludgineResult<()> {
        match self {
            Component::Panel(_) => Ok(()),
            _ => Err(KludgineError::UnhandledMessage),
        }
    }

    /// Delivers a message from a child's callback. Exactly the delivered
    /// message is appended to a panel's record; any other component is
    /// left as it was.
    pub fn receive_message(&mut self, message: Message) -> (r: KludgineResult<()>)
        ensures
            r == old(self).spec_message_result(message),
            match *old(self) {
                Component::Panel(panel) => *final(self) matches Component::Panel(p)
                    && p.received@ == panel.received@.push(message),
                _ => *final(self) == *old(self),
            },
    {
        match self {
            Component::Panel(panel) => {
                panel.received.push(message);
                Ok(())
            },
            _ => Err(KludgineError::UnhandledMessage),
        }
    }

    /// The component after a command is delivered. A command of the wrong
    /// kind for the component changes nothing.
    pub open spec fn spec_after_command(self, command: Command) -> Component {
        match (command, self) {
            (Command::Label(LabelCommand::SetValue(v)), Component::Label(_)) => Component::Label(
                Label { value: v },
            ),
            (Command::Image(ImageCommand::SetSprite(s)), Component::Image(image)) => {
                Component::Image(Image { sprite: s, ..image })
            },
            (Command::Image(ImageCommand::SetTag(tag)), Component::Image(image)) => {
                Component::Image(Image { sprite: image.sprite.spec_after_set_tag(tag), ..image })
            },
            (_, c) => c,
        }
    }

    /// Whether a command delivery succeeds. A command of the wrong kind
    /// fails loudly; an unknown sprite tag is a recoverable resource
    /// failure.
    pub open spec fn spec_command_result(self, command: Command) -> KludgineResult<()> {
        match (command, self) {
            (Command::Label(LabelCommand::SetValue(_)), Component::Label(_)) => Ok(()),
            (Command::Image(ImageCommand::SetSprite(_)), Component::Image(_)) => Ok(()),
            (Command::Image(ImageCommand::SetTag(tag)), Component::Image(image)) => {
                image.sprite.spec_set_tag_result(tag)
            },
            (_, _) => Err(KludgineError::UnhandledMessage),
        }
    }

    /// Delivers a command addressed to this node.
    pub fn receive_command(&mut self, command: Command) -> (r: KludgineResult<()>)
        ensures
            *final(self) == old(self).spec_after_command(command),
            r == old(self).spec_command_result(command),
    {
        match (command, &mut *self) {
            (Command::Label(LabelCommand::SetValue(v)), Component::Label(label)) => {
                label.value = v;
                Ok(())
            },
            (Command::Image(ImageCommand::SetSprite(s)), Component::Image(image)) => {
                image.sprite = s;
                Ok(())
            },
            (Command::Image(ImageCommand::SetTag(tag)), Component::Image(image)) => {
                image.sprite.set_current_tag(tag)
            },
            (_, _) => Err(KludgineError::UnhandledMessage),
        }
    }
}

} // verus!
