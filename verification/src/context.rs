//! The user interface, the capability handle, and the frame passes.
//!
//! [`UserInterface`] owns the arena and the cross-tree state; the frame
//! driver outside the tree pumps its update, layout, render, and input
//! entry points once per tick. A [`Context`] scopes that API to one index:
//! a component is handed a context for itself and can reach only what the
//! context exposes.

use crate::arena::seq_distinct;
use crate::arena::HierarchicalArena;
use crate::arena::Index;
use crate::component::Callback;
use crate::component::Component;
use crate::component::ControlEvent;
use crate::component::MouseButton;
use crate::event::EventStatus;
use crate::event::MouseScrollDelta;
use crate::event::TouchPhase;
use crate::math::Dimension;
use crate::math::Point;
use crate::math::Rect;
use crate::math::Size;
use crate::math::Surround;
use crate::node::AbsoluteBounds;
use crate::node::Layout;
use crate::node::Node;
use crate::style::ColorPair;
use crate::style::InteractionState;
use crate::style::StyleSheet;
use crate::ui_state::UIState;
use crate::KludgineError;
use crate::KludgineResult;
use vstd::prelude::*;

verus! {

broadcast use vstd::seq_lib::lemma_seq_contains_after_push;

/// One window's component tree and its cross-tree state.
pub struct UserInterface {
    pub arena: HierarchicalArena,
    pub state: UIState,
}

impl UserInterface {
    pub open spec fn wf(self) -> bool {
        self.arena.wf() && self.state.wf()
    }

    /// An empty interface.
    pub fn new() -> (r: UserInterface)
        ensures
            r.wf(),
            r.arena.slot_count() == 0,
            forall|i: Index| !r.arena.live(i),
            forall|root: Index| r.state.focused_in(root) is None && r.state.active_in(root)
                is None,
    {
        UserInterface { arena: HierarchicalArena::new(), state: UIState::new() }
    }

    /// Emits `event` on behalf of the node behind `source`, through the
    /// callback that node was configured with. A node without a callback,
    /// or a stale source, emits nothing.
    pub fn emit(&mut self, source: Index, event: ControlEvent) -> (r: KludgineResult<()>)
        requires
            old(self).wf(),
        ensures
            final(self).wf(),
            old(self).arena.structure_unchanged(final(self).arena),
            final(self).state == old(self).state,
            match (if old(self).arena.live(source) {
                old(self).arena.node_of(source).callback
            } else {
                None
            }) {
                Some(cb) => {
                    &&& (forall|j: Index|
                        old(self).arena.live(j) && j != cb.target ==> final(self).arena.node_of(j)
                            == old(self).arena.node_of(j))
                    &&& delivered_once(old(self).arena, final(self).arena, cb, event, r)
                },
                None => r is Ok && *final(self) == *old(self),
            },
    {
        let callback = match self.arena.get(source) {
            Some(node) => node.callback,
            None => None,
        };
        match callback {
            Some(cb) => cb.invoke(self, event),
            None => Ok(()),
        }
    }
}

/// What one callback invocation leaves behind: the translated event was
/// delivered to the captured target exactly once — appended once to a
/// panel target's record — or, when the target died first, dropped without
/// touching anything.
pub open spec fn delivered_once(
    pre: HierarchicalArena,
    post: HierarchicalArena,
    cb: Callback,
    event: ControlEvent,
    r: KludgineResult<()>,
) -> bool {
    if pre.live(cb.target) {
        let message = cb.translator.spec_translate(event);
        &&& r == pre.node_of(cb.target).component.spec_message_result(message)
        &&& post.node_of(cb.target) == (Node {
            component: post.node_of(cb.target).component,
            ..pre.node_of(cb.target)
        })
        &&& match pre.node_of(cb.target).component {
            Component::Panel(panel) => post.node_of(cb.target).component matches Component::Panel(
                p,
            ) && p.received@ == panel.received@.push(message),
            _ => post.node_of(cb.target).component == pre.node_of(cb.target).component,
        }
    } else {
        r is Ok && post == pre
    }
}

impl Callback {
    /// Translates `input` and dispatches it into the target node's message
    /// handler. The target was captured when the callback was configured,
    /// so this works even if the emitting child has been removed since; a
    /// target that has itself been removed drops the event.
    pub fn invoke(&self, ui: &mut UserInterface, input: ControlEvent) -> (r: KludgineResult<()>)
        requires
            old(ui).wf(),
        ensures
            final(ui).wf(),
            old(ui).arena.structure_unchanged(final(ui).arena),
            final(ui).state == old(ui).state,
            forall|j: Index|
                old(ui).arena.live(j) && j != self.target ==> final(ui).arena.node_of(j) == old(ui).arena.node_of(j),
            delivered_once(old(ui).arena, final(ui).arena, *self, input, r),
    {
        let message = self.translator.translate(input);
        if ui.arena.contains(self.target) {
            ui.arena.deliver_message(self.target, message)
        } else {
            Ok(())
        }
    }
}

/// The construction pipeline for a new node: configure the style sheet,
/// bounds, interactivity, and an optional callback, then insert. Insertion
/// allocates the node under the chosen parent and runs the component's
/// initialize hook; a failed initialize leaves the arena untouched, so no
/// partially registered entry survives.
pub struct EntityBuilder {
    pub component: Component,
    pub parent: Option<Index>,
    pub style_sheet: StyleSheet,
    pub bounds: AbsoluteBounds,
    pub interactive: bool,
    pub callback: Option<Callback>,
}

impl EntityBuilder {
    /// A builder for `component`, to be inserted under `parent` (at the
    /// root for `None`). Nodes start interactive, with default styling
    /// and bounds and no callback.
    pub fn new(parent: Option<Index>, component: Component) -> (r: EntityBuilder)
        ensures
            r.component == component,
            r.parent == parent,
            r.style_sheet == StyleSheet::spec_all(crate::style::Style::spec_empty()),
            r.bounds == AbsoluteBounds::spec_unspecified(),
            r.interactive,
            r.callback is None,
    {
        EntityBuilder {
            component,
            parent,
            style_sheet: StyleSheet::default(),
            bounds: AbsoluteBounds::default(),
            interactive: true,
            callback: None,
        }
    }

    pub fn style_sheet(self, sheet: StyleSheet) -> (r: EntityBuilder)
        ensures
            r == (EntityBuilder { style_sheet: sheet, ..self }),
    {
        EntityBuilder { style_sheet: sheet, ..self }
    }

    /// Sets the sheet's normal variant.
    pub fn style(self, style: crate::style::Style) -> (r: EntityBuilder)
        ensures
            r == (EntityBuilder {
                style_sheet: StyleSheet { normal: style, ..self.style_sheet },
                ..self
            }),
    {
        let sheet = StyleSheet { normal: style, ..self.style_sheet };
        EntityBuilder { style_sheet: sheet, ..self }
    }

    /// Sets the sheet's hover variant.
    pub fn hover(self, style: crate::style::Style) -> (r: EntityBuilder)
        ensures
            r == (EntityBuilder {
                style_sheet: StyleSheet { hover: style, ..self.style_sheet },
                ..self
            }),
    {
        let sheet = StyleSheet { hover: style, ..self.style_sheet };
        EntityBuilder { style_sheet: sheet, ..self }
    }

    /// Sets the sheet's active variant.
    pub fn active(self, style: crate::style::Style) -> (r: EntityBuilder)
        ensures
            r == (EntityBuilder {
                style_sheet: StyleSheet { active: style, ..self.style_sheet },
                ..self
            }),
    {
        let sheet = StyleSheet { active: style, ..self.style_sheet };
        EntityBuilder { style_sheet: sheet, ..self }
    }

    /// Sets the sheet's focus variant.
    pub fn focus(self, style: crate::style::Style) -> (r: EntityBuilder)
        ensures
            r == (EntityBuilder {
                style_sheet: StyleSheet { focus: style, ..self.style_sheet },
                ..self
            }),
    {
        let sheet = StyleSheet { focus: style, ..self.style_sheet };
        EntityBuilder { style_sheet: sheet, ..self }
    }

    pub fn bounds(self, bounds: AbsoluteBounds) -> (r: EntityBuilder)
        ensures
            r == (EntityBuilder { bounds, ..self }),
    {
        EntityBuilder { bounds, ..self }
    }

    pub fn interactive(self, interactive: bool) -> (r: EntityBuilder)
        ensures
            r == (EntityBuilder { interactive, ..self }),
    {
        EntityBuilder { interactive, ..self }
    }

    /// Wires the node's outbound events to its parent through the given
    /// translation. The target is captured now, from the parent the
    /// builder was created with.
    pub fn callback(self, translator: crate::component::Translator) -> (r: EntityBuilder)
        requires
            self.parent is Some,
        ensures
            r == (EntityBuilder {
                callback: Some(Callback { target: self.parent->Some_0, translator }),
                ..self
            }),
    {
        let target = self.parent.unwrap();
        EntityBuilder { callback: Some(Callback { target, translator }), ..self }
    }

    /// Allocates the node, runs its initialize hook, and hands back its
    /// index. A stale parent is a lookup failure and changes nothing.
    pub fn insert(self, ui: &mut UserInterface) -> (r: KludgineResult<Index>)
        requires
            old(ui).wf(),
        ensures
            final(ui).wf(),
            final(ui).state == old(ui).state,
            if old(ui).arena.valid_parent(self.parent) {
                r matches Ok(index) && {
                    &&& !old(ui).arena.live(index)
                    &&& final(ui).arena.live(index)
                    &&& final(ui).arena.node_of(index) == (Node {
                        component: self.component,
                        style_sheet: self.style_sheet,
                        bounds: self.bounds,
                        interactive: self.interactive,
                        callback: self.callback,
                        last_layout: None,
                        initialized: true,
                    })
                    &&& final(ui).arena.parent_of(index) == self.parent
                    &&& final(ui).arena.child_seq(self.parent) == old(ui).arena.child_seq(
                        self.parent,
                    ).push(index)
                    &&& (forall|j: Index|
                        j != index ==> final(ui).arena.live(j) == old(ui).arena.live(j))
                    &&& (forall|j: Index|
                        old(ui).arena.live(j) ==> final(ui).arena.node_of(j) == old(ui).arena.node_of(j) && final(ui).arena.parent_of(j) == old(ui).arena.parent_of(j))
                    &&& (forall|q: Option<Index>|
                        old(ui).arena.valid_parent(q) && q != self.parent ==> final(ui).arena.child_seq(q) == old(ui).arena.child_seq(q))
                }
            } else {
                r == KludgineResult::<Index>::Err(KludgineError::LookupFailed) && *final(ui)
                    == *old(ui)
            },
    {
        let parent_ok = match self.parent {
            Some(p) => ui.arena.contains(p),
            None => true,
        };
        if !parent_ok {
            return Err(KludgineError::LookupFailed);
        }
        let mut component = self.component;
        match component.initialize() {
            Ok(()) => {},
            Err(e) => {
                // The recommended resolution of a failed initialize: the
                // node never enters the arena, so the caller sees the
                // error and no partially registered entry remains.
                return Err(e);
            },
        }
        let node = Node::new(
            component,
            self.style_sheet,
            self.bounds,
            self.interactive,
            self.callback,
        );
        let index = ui.arena.insert(self.parent, node);
        ui.arena.mark_initialized(index);
        Ok(index)
    }
}

/// A capability handle bound to one arena index. The handle itself is just
/// the index; each operation borrows the interface it works on, so a
/// component can reach exactly what its context is handed.
#[derive(Clone, Copy, Debug, PartialEq, Eq, Structural)]
pub struct Context {
    pub index: Index,
}

impl Context {
    pub fn new(index: Index) -> (r: Context)
        ensures
            r.index == index,
    {
        Context { index }
    }

    /// The index this handle is bound to.
    pub fn index(&self) -> (r: Index)
        ensures
            r == self.index,
    {
        self.index
    }

    /// The same capabilities, bound to another index — how an ancestor
    /// obtains a scoped handle for a child without exposing the arena.
    pub fn clone_for(&self, index: Index) -> (r: Context)
        ensures
            r.index == index,
    {
        Context { index }
    }

    /// The children of this node.
    pub fn children(&self, ui: &UserInterface) -> (r: Vec<Index>)
        requires
            ui.wf(),
        ensures
            r@ == (if ui.arena.live(self.index) {
                ui.arena.child_seq(Some(self.index))
            } else {
                Seq::<Index>::empty()
            }),
    {
        ui.arena.children(&Some(self.index))
    }

    /// Reparents this node under `parent` (under the root set for
    /// `None`). A stale index on either end is a lookup failure.
    pub fn set_parent(&self, ui: &mut UserInterface, parent: Option<Index>) -> (r: KludgineResult<
        (),
    >)
        requires
            old(ui).wf(),
        ensures
            final(ui).wf(),
            final(ui).state == old(ui).state,
            if old(ui).arena.live(self.index) && old(ui).arena.valid_parent(parent) {
                &&& r is Ok
                &&& final(ui).arena.parent_of(self.index) == parent
                &&& (forall|j: Index| final(ui).arena.live(j) == old(ui).arena.live(j))
                &&& (forall|j: Index|
                    old(ui).arena.live(j) ==> final(ui).arena.node_of(j) == old(ui).arena.node_of(
                        j,
                    ))
                &&& (forall|j: Index|
                    old(ui).arena.live(j) && j != self.index ==> final(ui).arena.parent_of(j)
                        == old(ui).arena.parent_of(j))
            } else {
                r == KludgineResult::<()>::Err(KludgineError::LookupFailed) && *final(ui) == *old(ui)
            },
    {
        let parent_ok = match parent {
            Some(p) => ui.arena.contains(p),
            None => true,
        };
        if ui.arena.contains(self.index) && parent_ok {
            ui.arena.set_parent(self.index, parent);
            Ok(())
        } else {
            Err(KludgineError::LookupFailed)
        }
    }

    /// Moves `child` under this node.
    pub fn add_child(&self, ui: &mut UserInterface, child: Index) -> (r: KludgineResult<()>)
        requires
            old(ui).wf(),
        ensures
            final(ui).wf(),
            final(ui).state == old(ui).state,
            if old(ui).arena.live(child) && old(ui).arena.live(self.index) {
                &&& r is Ok
                &&& final(ui).arena.parent_of(child) == Some(self.index)
                &&& (forall|j: Index| final(ui).arena.live(j) == old(ui).arena.live(j))
                &&& (forall|j: Index|
                    old(ui).arena.live(j) ==> final(ui).arena.node_of(j) == old(ui).arena.node_of(
                        j,
                    ))
                &&& (forall|j: Index|
                    old(ui).arena.live(j) && j != child ==> final(ui).arena.parent_of(j) == old(ui).arena.parent_of(j))
            } else {
                r == KludgineResult::<()>::Err(KludgineError::LookupFailed) && *final(ui) == *old(ui)
            },
    {
        Context { index: child }.set_parent(ui, Some(self.index))
    }

    /// Removes `element` from the tree and drops every focus or
    /// activation reference to it, so no dangling focus index survives.
    /// The removed node's children stay resident but detached, to be
    /// reaped explicitly. Removing a stale index changes nothing.
    pub fn remove(&self, ui: &mut UserInterface, element: Index) -> (r: Option<Node>)
        requires
            old(ui).wf(),
        ensures
            final(ui).wf(),
            !final(ui).arena.live(element),
            forall|j: Index| j != element ==> final(ui).arena.live(j) == old(ui).arena.live(j),
            forall|j: Index|
                old(ui).arena.live(j) && j != element ==> final(ui).arena.node_of(j) == old(ui).arena.node_of(j) && final(ui).arena.parent_of(j) == old(ui).arena.parent_of(j),
            old(ui).arena.live(element) ==> (r matches Some(node)
                && node == old(ui).arena.node_of(element)),
            !old(ui).arena.live(element) ==> r is None && final(ui).arena == old(ui).arena,
            forall|root: Index|
                final(ui).state.focused_in(root) != Some(element) && final(ui).state.active_in(
                    root,
                ) != Some(element),
            forall|root: Index|
                old(ui).state.focused_in(root) != Some(element) ==> final(ui).state.focused_in(
                    root,
                ) == old(ui).state.focused_in(root),
            forall|root: Index|
                old(ui).state.active_in(root) != Some(element) ==> final(ui).state.active_in(root)
                    == old(ui).state.active_in(root),
    {
        let removed = ui.arena.remove(element);
        ui.state.removed_element(element);
        removed
    }

    /// This node's style sheet.
    pub fn style_sheet(&self, ui: &UserInterface) -> (r: KludgineResult<StyleSheet>)
        requires
            ui.wf(),
        ensures
            r == (if ui.arena.live(self.index) {
                Ok::<StyleSheet, KludgineError>(ui.arena.node_of(self.index).style_sheet)
            } else {
                Err::<StyleSheet, KludgineError>(KludgineError::LookupFailed)
            }),
    {
        match ui.arena.get(self.index) {
            Some(node) => Ok(node.style_sheet),
            None => Err(KludgineError::LookupFailed),
        }
    }

    /// Replaces this node's style sheet.
    pub fn set_style_sheet(&self, ui: &mut UserInterface, sheet: StyleSheet) -> (r: KludgineResult<
        (),
    >)
        requires
            old(ui).wf(),
        ensures
            final(ui).wf(),
            final(ui).state == old(ui).state,
            old(ui).arena.structure_unchanged(final(ui).arena),
            if old(ui).arena.live(self.index) {
                &&& r is Ok
                &&& final(ui).arena.node_of(self.index) == (Node {
                    style_sheet: sheet,
                    ..old(ui).arena.node_of(self.index)
                })
                &&& (forall|j: Index|
                    old(ui).arena.live(j) && j != self.index ==> final(ui).arena.node_of(j) == old(ui).arena.node_of(j))
            } else {
                r == KludgineResult::<()>::Err(KludgineError::LookupFailed) && *final(ui) == *old(ui)
            },
    {
        if ui.arena.set_style_sheet(self.index, sheet) {
            Ok(())
        } else {
            Err(KludgineError::LookupFailed)
        }
    }

    /// The layout the last pass computed for `entity`.
    pub fn last_layout_for(&self, ui: &UserInterface, entity: Index) -> (r: KludgineResult<
        Option<Layout>,
    >)
        requires
            ui.wf(),
        ensures
            r == (if ui.arena.live(entity) {
                Ok::<Option<Layout>, KludgineError>(ui.arena.node_of(entity).last_layout)
            } else {
                Err::<Option<Layout>, KludgineError>(KludgineError::LookupFailed)
            }),
    {
        match ui.arena.get(entity) {
            Some(node) => Ok(node.last_layout),
            None => Err(KludgineError::LookupFailed),
        }
    }

    /// The root of the layer this node belongs to. A detached node — its
    /// parent chain broken by a removal — has none.
    pub fn layer_index(&self, ui: &UserInterface) -> (r: Option<Index>)
        requires
            ui.wf(),
        ensures
            r == ui.arena.root_within(self.index, ui.arena.slot_count() + 1),
    {
        ui.arena.layer_root(self.index)
    }

    /// Marks this node active (pressed) in its layer. A detached node is
    /// a lookup failure.
    pub fn activate(&self, ui: &mut UserInterface) -> (r: KludgineResult<()>)
        requires
            old(ui).wf(),
        ensures
            final(ui).wf(),
            final(ui).arena == old(ui).arena,
            final(ui).state.spec_hovered() == old(ui).state.spec_hovered(),
            match old(ui).arena.root_within(self.index, old(ui).arena.slot_count() + 1) {
                Some(root) => {
                    &&& r is Ok
                    &&& final(ui).state.active_in(root) == Some(self.index)
                    &&& final(ui).state.focused_in(root) == old(ui).state.focused_in(root)
                    &&& (forall|r2: Index|
                        r2 != root ==> final(ui).state.focused_in(r2) == old(ui).state.focused_in(r2) && final(ui).state.active_in(r2) == old(ui).state.active_in(r2))
                },
                None => r == KludgineResult::<()>::Err(KludgineError::LookupFailed) && *final(ui)
                    == *old(ui),
            },
    {
        match ui.arena.layer_root(self.index) {
            Some(root) => {
                ui.state.activate(root, self.index);
                Ok(())
            },
            None => Err(KludgineError::LookupFailed),
        }
    }

    /// Clears the active node of this node's layer.
    pub fn deactivate(&self, ui: &mut UserInterface) -> (r: KludgineResult<()>)
        requires
            old(ui).wf(),
        ensures
            final(ui).wf(),
            final(ui).arena == old(ui).arena,
            final(ui).state.spec_hovered() == old(ui).state.spec_hovered(),
            match old(ui).arena.root_within(self.index, old(ui).arena.slot_count() + 1) {
                Some(root) => {
                    &&& r is Ok
                    &&& final(ui).state.active_in(root) is None
                    &&& final(ui).state.focused_in(root) == old(ui).state.focused_in(root)
                    &&& (forall|r2: Index|
                        r2 != root ==> final(ui).state.focused_in(r2) == old(ui).state.focused_in(r2) && final(ui).state.active_in(r2) == old(ui).state.active_in(r2))
                },
                None => r == KludgineResult::<()>::Err(KludgineError::LookupFailed) && *final(ui)
                    == *old(ui),
            },
    {
        match ui.arena.layer_root(self.index) {
            Some(root) => {
                ui.state.deactivate(root);
                Ok(())
            },
            None => Err(KludgineError::LookupFailed),
        }
    }

    /// Gives this node its layer's focus.
    pub fn focus(&self, ui: &mut UserInterface) -> (r: KludgineResult<()>)
        requires
            old(ui).wf(),
        ensures
            final(ui).wf(),
            final(ui).arena == old(ui).arena,
            final(ui).state.spec_hovered() == old(ui).state.spec_hovered(),
            match old(ui).arena.root_within(self.index, old(ui).arena.slot_count() + 1) {
                Some(root) => {
                    &&& r is Ok
                    &&& final(ui).state.focused_in(root) == Some(self.index)
                    &&& final(ui).state.active_in(root) == old(ui).state.active_in(root)
                    &&& (forall|r2: Index|
                        r2 != root ==> final(ui).state.focused_in(r2) == old(ui).state.focused_in(r2) && final(ui).state.active_in(r2) == old(ui).state.active_in(r2))
                },
                None => r == KludgineResult::<()>::Err(KludgineError::LookupFailed) && *final(ui)
                    == *old(ui),
            },
    {
        match ui.arena.layer_root(self.index) {
            Some(root) => {
                ui.state.focus_on(root, Some(self.index));
                Ok(())
            },
            None => Err(KludgineError::LookupFailed),
        }
    }

    /// Takes the focus away from this node's layer entirely — clearing
    /// the focus always succeeds on any attached node.
    pub fn blur(&self, ui: &mut UserInterface) -> (r: KludgineResult<()>)
        requires
            old(ui).wf(),
        ensures
            final(ui).wf(),
            final(ui).arena == old(ui).arena,
            final(ui).state.spec_hovered() == old(ui).state.spec_hovered(),
            match old(ui).arena.root_within(self.index, old(ui).arena.slot_count() + 1) {
                Some(root) => {
                    &&& r is Ok
                    &&& final(ui).state.focused_in(root) is None
                    &&& final(ui).state.active_in(root) == old(ui).state.active_in(root)
                    &&& (forall|r2: Index|
                        r2 != root ==> final(ui).state.focused_in(r2) == old(ui).state.focused_in(r2) && final(ui).state.active_in(r2) == old(ui).state.active_in(r2))
                },
                None => r == KludgineResult::<()>::Err(KludgineError::LookupFailed) && *final(ui)
                    == *old(ui),
            },
    {
        match ui.arena.layer_root(self.index) {
            Some(root) => {
                ui.state.focus_on(root, None);
                Ok(())
            },
            None => Err(KludgineError::LookupFailed),
        }
    }

    /// Whether this node holds its layer's focus.
    pub fn is_focused(&self, ui: &UserInterface) -> (r: bool)
        requires
            ui.wf(),
        ensures
            r == match ui.arena.root_within(self.index, ui.arena.slot_count() + 1) {
                Some(root) => ui.state.focused_in(root) == Some(self.index),
                None => false,
            },
    {
        match ui.arena.layer_root(self.index) {
            Some(root) => match ui.state.focus(root) {
                Some(focused) => focused == self.index,
                None => false,
            },
            None => false,
        }
    }

    /// Asks the frame driver for an immediate redraw.
    pub fn set_needs_redraw(&self, ui: &mut UserInterface)
        requires
            old(ui).wf(),
        ensures
            final(ui).wf(),
            final(ui).arena == old(ui).arena,
            final(ui).state.spec_needs_redraw(),
            final(ui).state.spec_next_redraw() == old(ui).state.spec_next_redraw(),
            forall|root: Index|
                final(ui).state.focused_in(root) == old(ui).state.focused_in(root) && final(ui).state.active_in(root) == old(ui).state.active_in(root),
    {
        ui.state.set_needs_redraw();
    }

    /// Registers "redraw no later than `instant`", in driver ticks. The
    /// earliest registered deadline wins.
    pub fn estimate_next_frame_instant(&self, ui: &mut UserInterface, instant: u64)
        requires
            old(ui).wf(),
        ensures
            final(ui).wf(),
            final(ui).arena == old(ui).arena,
            final(ui).state.spec_next_redraw() == Some(
                match old(ui).state.spec_next_redraw() {
                    Some(existing) => if instant < existing {
                        instant
                    } else {
                        existing
                    },
                    None => instant,
                },
            ),
            forall|root: Index|
                final(ui).state.focused_in(root) == old(ui).state.focused_in(root) && final(ui).state.active_in(root) == old(ui).state.active_in(root),
    {
        ui.state.estimate_next_frame_instant(instant);
    }

    /// A builder for a new child of this node.
    pub fn insert_new_entity(&self, component: Component) -> (r: EntityBuilder)
        ensures
            r.component == component,
            r.parent == Some(self.index),
            r.interactive,
            r.callback is None,
            r.style_sheet == StyleSheet::spec_all(crate::style::Style::spec_empty()),
            r.bounds == AbsoluteBounds::spec_unspecified(),
    {
        EntityBuilder::new(Some(self.index), component)
    }

    /// A builder for the root of a fresh layer: an independent top-level
    /// component stack with its own focus and activation scope.
    pub fn new_layer(&self, component: Component) -> (r: EntityBuilder)
        ensures
            r.component == component,
            r.parent is None,
            r.interactive,
            r.callback is None,
            r.style_sheet == StyleSheet::spec_all(crate::style::Style::spec_empty()),
            r.bounds == AbsoluteBounds::spec_unspecified(),
    {
        EntityBuilder::new(None, component)
    }
}

impl UserInterface {
    /// One update tick: walks the live tree breadth-first over a snapshot
    /// taken at pass start and runs every visited component's update
    /// hook. Nodes unreachable from the root set are not visited.
    pub fn update(&mut self) -> (r: KludgineResult<()>)
        requires
            old(self).wf(),
        ensures
            final(self).wf(),
            r is Ok,
            old(self).arena.structure_unchanged(final(self).arena),
            final(self).state == old(self).state,
            forall|j: Index|
                old(self).arena.live(j) ==> final(self).arena.node_of(j) == (if old(self).arena.reachable(j) {
                    Node {
                        component: old(self).arena.node_of(j).component.spec_after_update(),
                        ..old(self).arena.node_of(j)
                    }
                } else {
                    old(self).arena.node_of(j)
                }),
    {
        let order = match self.arena.bfs_order() {
            Ok(order) => order,
            Err(e) => {
                return Err(e);
            },
        };
        let ghost pre = *old(self);
        let mut k: usize = 0;
        while k < order.len()
            invariant
                pre.wf(),
                self.wf(),
                self.state == pre.state,
                pre.arena.structure_unchanged(self.arena),
                0 <= k <= order@.len(),
                seq_distinct(order@),
                forall|x: Index| order@.contains(x) <==> pre.arena.reachable(x),
                forall|m: int| 0 <= m < order@.len() ==> pre.arena.live(#[trigger] order@[m]),
                forall|j: Index|
                    pre.arena.live(j) ==> self.arena.node_of(j) == (if order@.take(
                        k as int,
                    ).contains(j) {
                        Node {
                            component: pre.arena.node_of(j).component.spec_after_update(),
                            ..pre.arena.node_of(j)
                        }
                    } else {
                        pre.arena.node_of(j)
                    }),
            decreases order@.len() - k,
        {
            let ghost mid = *self;
            let i = order[k];
            self.arena.update_node(i);
            proof {
                HierarchicalArena::lemma_structure_unchanged_trans(
                    pre.arena,
                    mid.arena,
                    self.arena,
                );
                assert(order@.take(k as int + 1) =~= order@.take(k as int).push(i));
                assert(pre.arena.live(i));
                assert(!order@.take(k as int).contains(i)) by {
                    if order@.take(k as int).contains(i) {
                        let m = choose|m: int| 0 <= m < k && order@.take(k as int)[m] == i;
                        assert(order@[m] == i && order@[k as int] == i);
                    }
                }
                assert forall|j: Index| pre.arena.live(j) implies self.arena.node_of(j) == (
                if order@.take(k as int + 1).contains(j) {
                    Node {
                        component: pre.arena.node_of(j).component.spec_after_update(),
                        ..pre.arena.node_of(j)
                    }
                } else {
                    pre.arena.node_of(j)
                }) by {
                    assert(mid.arena.live(j));
                }
            }
            k = k + 1;
        }
        proof {
            assert(order@.take(order@.len() as int) =~= order@);
        }
        Ok(())
    }

    /// Whether `i` would be hit by a pointer at `position`: a live,
    /// interactive node whose last computed layout, less its margin,
    /// contains the point.
    pub open spec fn spec_hit(self, i: Index, position: Point) -> bool {
        &&& self.arena.live(i)
        &&& self.arena.node_of(i).interactive
        &&& match self.arena.node_of(i).last_layout {
            Some(layout) => layout.spec_bounds_without_margin().spec_contains(position),
            None => false,
        }
    }

    /// Position `k` of the breadth-first order `order` is the dispatch
    /// target of a pointer at `position`: it is hit and its layer
    /// resolves, and no earlier position manages both.
    pub open spec fn spec_first_rooted_hit(
        self,
        order: Seq<Index>,
        k: int,
        position: Point,
    ) -> bool {
        &&& self.arena.spec_bfs_order(order)
        &&& 0 <= k < order.len()
        &&& self.spec_hit(order[k], position)
        &&& self.arena.root_within(order[k], self.arena.slot_count() + 1) is Some
        &&& (forall|m: int|
            0 <= m < k ==> !(self.spec_hit(#[trigger] order[m], position)
                && self.arena.root_within(order[m], self.arena.slot_count() + 1) is Some))
    }

    /// Position `k` of the breadth-first order `order` is the first one a
    /// pointer at `position` hits at all.
    pub open spec fn spec_first_hit(self, order: Seq<Index>, k: int, position: Point) -> bool {
        &&& self.arena.spec_bfs_order(order)
        &&& 0 <= k < order.len()
        &&& self.spec_hit(order[k], position)
        &&& (forall|m: int| 0 <= m < k ==> !self.spec_hit(#[trigger] order[m], position))
    }

    /// Dispatches a pressed pointer button into the tree: the first
    /// reachable node (in breadth-first order) that the position hits
    /// becomes its layer's active node, and the event counts as
    /// processed. A detached hit — one whose layer cannot be resolved —
    /// is skipped.
    pub fn mouse_down(&mut self, position: Point, button: MouseButton) -> (r: KludgineResult<
        EventStatus,
    >)
        requires
            old(self).wf(),
        ensures
            final(self).wf(),
            final(self).arena == old(self).arena,
            final(self).state.spec_hovered() == old(self).state.spec_hovered(),
            r matches Ok(status) && match status {
                EventStatus::Processed => exists|order: Seq<Index>, k: int|
                    {
                        &&& old(self).spec_first_rooted_hit(order, k, position)
                        &&& {
                            let i = order[k];
                            let root = old(self).arena.root_within(
                                i,
                                old(self).arena.slot_count() + 1,
                            )->Some_0;
                            &&& final(self).state.active_in(root) == Some(i)
                            &&& final(self).state.focused_in(root) == old(
                                self,
                            ).state.focused_in(root)
                            &&& (forall|r2: Index|
                                r2 != root ==> final(self).state.focused_in(r2) == old(
                                    self,
                                ).state.focused_in(r2) && final(self).state.active_in(r2) == old(
                                    self,
                                ).state.active_in(r2))
                        }
                    },
                EventStatus::Ignored => *final(self) == *old(self) && (forall|i: Index|
                    old(self).arena.reachable(i) && old(self).spec_hit(i, position) ==> old(self).arena.root_within(i, old(self).arena.slot_count() + 1) is None),
            },
    {
        let order = match self.arena.bfs_order() {
            Ok(order) => order,
            Err(e) => {
                return Err(e);
            },
        };
        let mut k: usize = 0;
        while k < order.len()
            invariant
                self.wf(),
                *self == *old(self),
                0 <= k <= order@.len(),
                self.arena.spec_bfs_order(order@),
                forall|m: int|
                    0 <= m < k ==> !(self.spec_hit(#[trigger] order@[m], position)
                        && self.arena.root_within(order@[m], self.arena.slot_count() + 1)
                        is Some),
            decreases order@.len() - k,
        {
            let i = order[k];
            let hit = match self.arena.get(i) {
                Some(node) => node.interactive && match node.last_layout {
                    Some(layout) => layout.bounds_without_margin().contains(position),
                    None => false,
                },
                None => false,
            };
            if hit {
                match self.arena.layer_root(i) {
                    Some(root) => {
                        proof {
                            assert(order@.contains(order@[k as int]));
                            assert(old(self).spec_first_rooted_hit(order@, k as int, position));
                        }
                        self.state.activate(root, i);
                        return Ok(EventStatus::Processed);
                    },
                    None => {},
                }
            }
            k = k + 1;
        }
        proof {
            assert forall|i: Index|
                self.arena.reachable(i) && self.spec_hit(
                    i,
                    position,
                ) implies self.arena.root_within(i, self.arena.slot_count() + 1) is None by {
                assert(order@.contains(i));
                let m = choose|m: int| 0 <= m < order@.len() && order@[m] == i;
                assert(!(self.spec_hit(order@[m], position) && self.arena.root_within(
                    order@[m],
                    self.arena.slot_count() + 1,
                ) is Some));
            }
        }
        Ok(EventStatus::Ignored)
    }

    /// Tracks the pointer's position: the first reachable node (in
    /// breadth-first order) the position hits becomes the hovered node —
    /// the one whose sheet's hover variant the render pass applies. A
    /// position over nothing, or a pointer that left the window, clears
    /// the hover. Focus and activation are untouched.
    pub fn mouse_moved(&mut self, position: Option<Point>) -> (r: KludgineResult<EventStatus>)
        requires
            old(self).wf(),
        ensures
            final(self).wf(),
            final(self).arena == old(self).arena,
            forall|root: Index|
                final(self).state.focused_in(root) == old(self).state.focused_in(root)
                    && final(self).state.active_in(root) == old(self).state.active_in(root),
            final(self).state.spec_needs_redraw() == old(self).state.spec_needs_redraw(),
            final(self).state.spec_next_redraw() == old(self).state.spec_next_redraw(),
            position is None ==> r == KludgineResult::<EventStatus>::Ok(EventStatus::Ignored)
                && final(self).state.spec_hovered() is None,
            position matches Some(p) ==> (r matches Ok(status) && match status {
                EventStatus::Processed => exists|order: Seq<Index>, k: int|
                    {
                        &&& old(self).spec_first_hit(order, k, p)
                        &&& final(self).state.spec_hovered() == Some(order[k])
                    },
                EventStatus::Ignored => {
                    &&& final(self).state.spec_hovered() is None
                    &&& (forall|i: Index|
                        old(self).arena.reachable(i) ==> !old(self).spec_hit(i, p))
                },
            }),
    {
        let p = match position {
            Some(p) => p,
            None => {
                self.state.set_hover(None);
                return Ok(EventStatus::Ignored);
            },
        };
        let order = match self.arena.bfs_order() {
            Ok(order) => order,
            Err(e) => {
                return Err(e);
            },
        };
        let mut k: usize = 0;
        while k < order.len()
            invariant
                self.wf(),
                *self == *old(self),
                position == Some(p),
                0 <= k <= order@.len(),
                self.arena.spec_bfs_order(order@),
                forall|m: int| 0 <= m < k ==> !self.spec_hit(#[trigger] order@[m], p),
            decreases order@.len() - k,
        {
            let i = order[k];
            let hit = match self.arena.get(i) {
                Some(node) => node.interactive && match node.last_layout {
                    Some(layout) => layout.bounds_without_margin().contains(p),
                    None => false,
                },
                None => false,
            };
            if hit {
                proof {
                    assert(old(self).spec_first_hit(order@, k as int, p));
                }
                self.state.set_hover(Some(i));
                proof {
                    let ghost pos = position->Some_0;
                    assert(old(self).spec_first_hit(order@, k as int, pos));
                    assert(self.state.spec_hovered() == Some(order@[k as int]));
                    assert(exists|order2: Seq<Index>, k2: int|
                        old(self).spec_first_hit(order2, k2, pos) && self.state.spec_hovered()
                            == Some(order2[k2])) by {
                        assert(old(self).spec_first_hit(order@, k as int, pos)
                            && self.state.spec_hovered() == Some(order@[k as int]));
                    }
                }
                return Ok(EventStatus::Processed);
            }
            k = k + 1;
        }
        proof {
            assert forall|i: Index| self.arena.reachable(i) implies !self.spec_hit(i, p) by {
                assert(order@.contains(i));
                let m = choose|m: int| 0 <= m < order@.len() && order@[m] == i;
                assert(!self.spec_hit(order@[m], p));
            }
        }
        self.state.set_hover(None);
        Ok(EventStatus::Ignored)
    }

    /// Dispatches a wheel event. None of the components this crate ships
    /// with handles scrolling, so the event is ignored and nothing moves.
    pub fn mouse_wheel(&mut self, delta: MouseScrollDelta, touch_phase: TouchPhase) -> (r:
        KludgineResult<EventStatus>)
        requires
            old(self).wf(),
        ensures
            final(self).wf(),
            r == KludgineResult::<EventStatus>::Ok(EventStatus::Ignored),
            *final(self) == *old(self),
    {
        Ok(EventStatus::Ignored)
    }

    /// Tracks a pointer drag: every layer whose active node the pointer
    /// no longer touches lets go of it, and a drag that has left the
    /// window (`None`) releases every activation. An active node the
    /// pointer still touches stays active. Focus is untouched.
    pub fn mouse_drag(&mut self, position: Option<Point>, button: MouseButton) -> (r:
        KludgineResult<()>)
        requires
            old(self).wf(),
        ensures
            final(self).wf(),
            r is Ok,
            final(self).arena == old(self).arena,
            final(self).state.spec_hovered() == old(self).state.spec_hovered(),
            forall|root: Index|
                final(self).state.focused_in(root) == old(self).state.focused_in(root),
            forall|root: Index|
                final(self).state.active_in(root) == (match old(self).state.active_in(root) {
                    Some(i) => if position matches Some(p) && old(self).spec_hit(i, p) {
                        Some(i)
                    } else {
                        None::<Index>
                    },
                    None => None::<Index>,
                }),
    {
        let ghost pre = *old(self);
        let entries = self.state.layer_entries();
        let mut k: usize = 0;
        while k < entries.len()
            invariant
                pre.wf(),
                self.wf(),
                self.arena == pre.arena,
                0 <= k <= entries@.len(),
                forall|i: int, j: int|
                    0 <= i < j < entries@.len() ==> entries@[i].root != entries@[j].root,
                forall|m: int|
                    0 <= m < entries@.len() ==> pre.state.active_in((#[trigger] entries@[m]).root)
                        == entries@[m].active && pre.state.spec_has_layer(entries@[m].root),
                forall|root: Index|
                    pre.state.spec_has_layer(root) ==> exists|m: int|
                        0 <= m < entries@.len() && (#[trigger] entries@[m]).root == root,
                forall|root: Index|
                    pre.state.spec_has_layer(root) == self.state.spec_has_layer(root),
                self.state.spec_hovered() == pre.state.spec_hovered(),
                forall|root: Index|
                    self.state.focused_in(root) == pre.state.focused_in(root),
                forall|m: int|
                    0 <= m < k ==> self.state.active_in((#[trigger] entries@[m]).root) == (
                    match entries@[m].active {
                        Some(i) => if position matches Some(p) && pre.spec_hit(i, p) {
                            Some(i)
                        } else {
                            None::<Index>
                        },
                        None => None::<Index>,
                    }),
                forall|m: int|
                    k <= m < entries@.len() ==> self.state.active_in(
                        (#[trigger] entries@[m]).root,
                    ) == entries@[m].active,
                forall|root: Index|
                    !pre.state.spec_has_layer(root) ==> self.state.active_in(root)
                        == pre.state.active_in(root),
            decreases entries@.len() - k,
        {
            let entry = entries[k];
            match entry.active {
                Some(active_index) => {
                    let keep = match position {
                        Some(p) => match self.arena.get(active_index) {
                            Some(node) => node.interactive && match node.last_layout {
                                Some(layout) => layout.bounds_without_margin().contains(p),
                                None => false,
                            },
                            None => false,
                        },
                        None => false,
                    };
                    if !keep {
                        self.state.deactivate(entry.root);
                    }
                },
                None => {},
            }
            k = k + 1;
        }
        proof {
            assert forall|root: Index|
                self.state.active_in(root) == (match pre.state.active_in(root) {
                    Some(i) => if position matches Some(p) && pre.spec_hit(i, p) {
                        Some(i)
                    } else {
                        None::<Index>
                    },
                    None => None::<Index>,
                }) by {
                if pre.state.spec_has_layer(root) {
                    let m = choose|m: int|
                        0 <= m < entries@.len() && (#[trigger] entries@[m]).root == root;
                    assert(self.state.active_in(entries@[m].root) == (match entries@[m].active {
                        Some(i) => if position matches Some(p) && pre.spec_hit(i, p) {
                            Some(i)
                        } else {
                            None::<Index>
                        },
                        None => None::<Index>,
                    }));
                } else {
                    pre.state.lemma_untracked_layer(root);
                }
            }
        }
        Ok(())
    }

    /// Dispatches a released pointer button: the first reachable node the
    /// position hits receives the click — a label emits its click event
    /// through its callback, exactly once — and its layer's active node
    /// is cleared. A release that hits nothing changes nothing.
    pub fn mouse_up(&mut self, position: Point, button: MouseButton) -> (r: KludgineResult<
        EventStatus,
    >)
        requires
            old(self).wf(),
        ensures
            final(self).wf(),
            old(self).arena.structure_unchanged(final(self).arena),
            final(self).state.spec_hovered() == old(self).state.spec_hovered(),
            r matches Ok(status) && match status {
                EventStatus::Processed => exists|order: Seq<Index>, k: int|
                    {
                        &&& old(self).spec_first_rooted_hit(order, k, position)
                        &&& {
                            let i = order[k];
                            let root = old(self).arena.root_within(
                                i,
                                old(self).arena.slot_count() + 1,
                            )->Some_0;
                            &&& final(self).state.active_in(root) is None
                            &&& final(self).state.focused_in(root) == old(
                                self,
                            ).state.focused_in(root)
                            &&& (forall|r2: Index|
                                r2 != root ==> final(self).state.focused_in(r2) == old(
                                    self,
                                ).state.focused_in(r2) && final(self).state.active_in(r2) == old(
                                    self,
                                ).state.active_in(r2))
                            &&& match (old(self).arena.node_of(i).component.spec_click_event(
                                button,
                                position,
                            ), old(self).arena.node_of(i).callback) {
                                (Some(event), Some(cb)) => delivered_once(
                                    old(self).arena,
                                    final(self).arena,
                                    cb,
                                    event,
                                    Ok(()),
                                ) || delivered_once(
                                    old(self).arena,
                                    final(self).arena,
                                    cb,
                                    event,
                                    Err(KludgineError::UnhandledMessage),
                                ),
                                _ => final(self).arena == old(self).arena,
                            }
                        }
                    },
                EventStatus::Ignored => *final(self) == *old(self) && (forall|i: Index|
                    old(self).arena.reachable(i) && old(self).spec_hit(i, position) ==> old(self).arena.root_within(i, old(self).arena.slot_count() + 1) is None),
            },
    {
        let order = match self.arena.bfs_order() {
            Ok(order) => order,
            Err(e) => {
                return Err(e);
            },
        };
        let mut k: usize = 0;
        while k < order.len()
            invariant
                self.wf(),
                *self == *old(self),
                0 <= k <= order@.len(),
                self.arena.spec_bfs_order(order@),
                forall|m: int|
                    0 <= m < k ==> !(self.spec_hit(#[trigger] order@[m], position)
                        && self.arena.root_within(order@[m], self.arena.slot_count() + 1)
                        is Some),
            decreases order@.len() - k,
        {
            let i = order[k];
            let (hit, click) = match self.arena.get(i) {
                Some(node) => (
                    node.interactive && match node.last_layout {
                        Some(layout) => layout.bounds_without_margin().contains(position),
                        None => false,
                    },
                    node.component.clicked(button, position),
                ),
                None => (false, None),
            };
            if hit {
                match self.arena.layer_root(i) {
                    Some(root) => {
                        proof {
                            assert(order@.contains(order@[k as int]));
                            assert(old(self).spec_first_rooted_hit(order@, k as int, position));
                        }
                        match click {
                            Some(event) => {
                                // A target that cannot handle the click's
                                // message surfaces its error through the
                                // delivery record; the release itself still
                                // counts as processed, as a click on a
                                // control always does.
                                let _ = self.emit(i, event);
                            },
                            None => {},
                        }
                        self.state.deactivate(root);
                        return Ok(EventStatus::Processed);
                    },
                    None => {},
                }
            }
            k = k + 1;
        }
        proof {
            assert forall|i: Index|
                self.arena.reachable(i) && self.spec_hit(
                    i,
                    position,
                ) implies self.arena.root_within(i, self.arena.slot_count() + 1) is None by {
                assert(order@.contains(i));
                let m = choose|m: int| 0 <= m < order@.len() && order@[m] == i;
                assert(!(self.spec_hit(order@[m], position) && self.arena.root_within(
                    order@[m],
                    self.arena.slot_count() + 1,
                ) is Some));
            }
        }
        Ok(EventStatus::Ignored)
    }

    /// One layout pass. Every root-level node is granted the whole window
    /// rectangle; then, walking the live tree top-down, each laid-out
    /// node's children get the rectangle their absolute-bounds request
    /// solves to inside the parent's content rectangle. Only the nodes'
    /// layout caches change.
    /// One layout pass. Every root-level node is granted the whole window
    /// rectangle; then, walking the live tree top-down (parents strictly
    /// before children), each reachable node's children get exactly the
    /// rectangle their absolute-bounds request solves to inside the
    /// parent's content rectangle, with the child's content size queried
    /// under that rectangle's constraints. Only the nodes' layout caches
    /// change; nodes unreachable from the root set keep theirs.
    pub fn layout(&mut self, window_size: Size) -> (r: KludgineResult<()>)
        requires
            old(self).wf(),
        ensures
            final(self).wf(),
            r is Ok,
            old(self).arena.structure_unchanged(final(self).arena),
            final(self).state == old(self).state,
            forall|j: Index|
                old(self).arena.live(j) ==> final(self).arena.node_of(j) == (Node {
                    last_layout: final(self).arena.node_of(j).last_layout,
                    ..old(self).arena.node_of(j)
                }),
            forall|x: Index|
                old(self).arena.child_seq(None).contains(x) ==> final(self).arena.node_of(
                    x,
                ).last_layout == Some(spec_window_layout(window_size)),
            forall|j: Index|
                old(self).arena.reachable(j) ==> final(self).arena.node_of(j).last_layout
                    is Some,
            forall|p: Index, k: int|
                old(self).arena.reachable(p) && 0 <= k < old(self).arena.child_seq(
                    Some(p),
                ).len() ==> {
                    let c = #[trigger] old(self).arena.child_seq(Some(p))[k];
                    final(self).arena.node_of(c).last_layout == Some(
                        spec_child_layout(
                            old(self).arena.node_of(c),
                            final(self).arena.node_of(p).last_layout->Some_0,
                        ),
                    )
                },
    {
        let ghost pre = *old(self);
        let order = match self.arena.bfs_order() {
            Ok(order) => order,
            Err(e) => {
                return Err(e);
            },
        };
        let window_layout = Layout {
            bounds: Rect { origin: Point { x: 0, y: 0 }, size: window_size },
            margin: Surround { left: 0, top: 0, right: 0, bottom: 0 },
            padding: Surround { left: 0, top: 0, right: 0, bottom: 0 },
        };
        let roots = self.arena.children(&None);
        let mut k: usize = 0;
        while k < roots.len()
            invariant
                pre.wf(),
                self.wf(),
                self.state == pre.state,
                pre.arena.structure_unchanged(self.arena),
                roots@ == pre.arena.child_seq(None),
                window_layout == spec_window_layout(window_size),
                0 <= k <= roots@.len(),
                forall|j: Index|
                    pre.arena.live(j) ==> self.arena.node_of(j) == (Node {
                        last_layout: self.arena.node_of(j).last_layout,
                        ..pre.arena.node_of(j)
                    }),
                forall|m: int|
                    0 <= m < k ==> self.arena.node_of(#[trigger] roots@[m]).last_layout == Some(
                        window_layout,
                    ),
            decreases roots@.len() - k,
        {
            let ghost mid = *self;
            proof {
                assert(roots@.contains(roots@[k as int]));
                pre.arena.lemma_maps_consistent(roots@[k as int], None);
                assert(pre.arena.live(roots@[k as int]));
            }
            self.arena.set_last_layout(roots[k], window_layout);
            proof {
                HierarchicalArena::lemma_structure_unchanged_trans(
                    pre.arena,
                    mid.arena,
                    self.arena,
                );
                pre.arena.lemma_child_seq_distinct(None);
                assert forall|m: int|
                    0 <= m < k + 1 implies self.arena.node_of(
                    #[trigger] roots@[m],
                ).last_layout == Some(window_layout) by {
                    assert(roots@.contains(roots@[m]));
                    pre.arena.lemma_maps_consistent(roots@[m], None);
                    assert(pre.arena.live(roots@[m]));
                    if m < k && roots@[m] == roots@[k as int] {
                        assert(false);
                    }
                }
            }
            k = k + 1;
        }
        proof {
            assert forall|x: Index|
                pre.arena.child_seq(None).contains(x) implies self.arena.node_of(
                x,
            ).last_layout == Some(window_layout) by {
                let m = choose|m: int| 0 <= m < roots@.len() && roots@[m] == x;
                assert(self.arena.node_of(roots@[m]).last_layout == Some(window_layout));
            }
        }
        let mut t: usize = 0;
        while t < order.len()
            invariant
                pre.wf(),
                self.wf(),
                self.state == pre.state,
                pre.arena.structure_unchanged(self.arena),
                pre.arena.spec_bfs_order(order@),
                window_layout == spec_window_layout(window_size),
                0 <= t <= order@.len(),
                forall|j: Index|
                    pre.arena.live(j) ==> self.arena.node_of(j) == (Node {
                        last_layout: self.arena.node_of(j).last_layout,
                        ..pre.arena.node_of(j)
                    }),
                forall|x: Index|
                    pre.arena.child_seq(None).contains(x) ==> self.arena.node_of(x).last_layout
                        == Some(window_layout),
                forall|m: int, k2: int|
                    0 <= m < t && 0 <= k2 < pre.arena.child_seq(Some(order@[m])).len() ==> {
                        let c = #[trigger] pre.arena.child_seq(Some(order@[m]))[k2];
                        self.arena.node_of(c).last_layout == Some(
                            spec_child_layout(
                                pre.arena.node_of(c),
                                self.arena.node_of(order@[m]).last_layout->Some_0,
                            ),
                        )
                    },
            decreases order@.len() - t,
        {
            let i = order[t];
            proof {
                // A visited node already carries a layout: a root was
                // seeded with the window rectangle, and any other node was
                // solved when its parent — earlier in the order — ran.
                assert(pre.arena.live(i));
                match pre.arena.parent_of(i) {
                    None => {
                        pre.arena.lemma_maps_consistent(i, None);
                        assert(pre.arena.child_seq(None).contains(i));
                    },
                    Some(p) => {
                        let m = choose|m: int| 0 <= m < t && order@[m] == p;
                        assert(pre.arena.live(p));
                        pre.arena.lemma_maps_consistent(i, Some(p));
                        assert(pre.arena.child_seq(Some(p)).contains(i));
                        let k2 = choose|k2: int|
                            0 <= k2 < pre.arena.child_seq(Some(p)).len() && pre.arena.child_seq(
                                Some(p),
                            )[k2] == i;
                        assert(pre.arena.child_seq(Some(order@[m]))[k2] == i);
                    },
                }
                assert(self.arena.node_of(i).last_layout is Some);
            }
            let lay = match self.arena.get(i) {
                Some(node) => match node.last_layout {
                    Some(lay) => lay,
                    None => {
                        proof {
                            assert(false);
                        }
                        window_layout
                    },
                },
                None => {
                    proof {
                        assert(false);
                    }
                    window_layout
                },
            };
            let inner = lay.inner_bounds();
            let kids = self.arena.children(&Some(i));
            proof {
                pre.arena.lemma_child_seq_distinct(Some(i));
                // The node being solved is not among its own children: its
                // parent came strictly earlier in the order.
                assert forall|j2: int| 0 <= j2 < kids@.len() implies kids@[j2] != i by {
                    if kids@[j2] == i {
                        assert(kids@.contains(i));
                        pre.arena.lemma_maps_consistent(i, Some(i));
                        assert(pre.arena.parent_of(i) == Some(i));
                        let m = choose|m: int| 0 <= m < t && order@[m] == i;
                        assert(order@[m] == order@[t as int]);
                    }
                }
            }
            let mut m: usize = 0;
            while m < kids.len()
                invariant
                    pre.wf(),
                    self.wf(),
                    self.state == pre.state,
                    pre.arena.structure_unchanged(self.arena),
                    pre.arena.spec_bfs_order(order@),
                    window_layout == spec_window_layout(window_size),
                    0 <= t < order@.len(),
                    i == order@[t as int],
                    pre.arena.live(i),
                    kids@ == pre.arena.child_seq(Some(i)),
                    seq_distinct(kids@),
                    0 <= m <= kids@.len(),
                    forall|j2: int| 0 <= j2 < kids@.len() ==> #[trigger] kids@[j2] != i,
                    self.arena.node_of(i).last_layout == Some(lay),
                    inner == lay.spec_inner_bounds(),
                    forall|j: Index|
                        pre.arena.live(j) ==> self.arena.node_of(j) == (Node {
                            last_layout: self.arena.node_of(j).last_layout,
                            ..pre.arena.node_of(j)
                        }),
                    forall|x: Index|
                        pre.arena.child_seq(None).contains(x) ==> self.arena.node_of(
                            x,
                        ).last_layout == Some(window_layout),
                    forall|m2: int, k2: int|
                        0 <= m2 < t && 0 <= k2 < pre.arena.child_seq(Some(order@[m2])).len()
                            ==> {
                            let c = #[trigger] pre.arena.child_seq(Some(order@[m2]))[k2];
                            self.arena.node_of(c).last_layout == Some(
                                spec_child_layout(
                                    pre.arena.node_of(c),
                                    self.arena.node_of(order@[m2]).last_layout->Some_0,
                                ),
                            )
                        },
                    forall|j2: int|
                        0 <= j2 < m ==> self.arena.node_of(
                            #[trigger] kids@[j2],
                        ).last_layout == Some(
                            spec_child_layout(pre.arena.node_of(kids@[j2]), lay),
                        ),
                decreases kids@.len() - m,
            {
                let ghost kid_pre = *self;
                let child = kids[m];
                proof {
                    assert(kids@.contains(child));
                    pre.arena.lemma_maps_consistent(child, Some(i));
                    assert(pre.arena.live(child));
                }
                let (child_bounds, content) = match self.arena.get(child) {
                    Some(child_node) => {
                        let width = match child_node.bounds.width {
                            Dimension::Length(v) => Some(v),
                            Dimension::Auto => Some(inner.size.width),
                        };
                        let height = match child_node.bounds.height {
                            Dimension::Length(v) => Some(v),
                            Dimension::Auto => Some(inner.size.height),
                        };
                        (child_node.bounds, child_node.component.content_size(width, height))
                    },
                    None => {
                        proof {
                            assert(false);
                        }
                        (AbsoluteBounds::default(), Size { width: 0, height: 0 })
                    },
                };
                let rect = crate::layout::solve_bounds(&child_bounds, content, &inner);
                self.arena.set_last_layout(
                    child,
                    Layout {
                        bounds: rect,
                        margin: Surround { left: 0, top: 0, right: 0, bottom: 0 },
                        padding: Surround { left: 0, top: 0, right: 0, bottom: 0 },
                    },
                );
                proof {
                    HierarchicalArena::lemma_structure_unchanged_trans(
                        pre.arena,
                        kid_pre.arena,
                        self.arena,
                    );
                    assert(self.arena.node_of(child).last_layout == Some(
                        spec_child_layout(pre.arena.node_of(child), lay),
                    ));
                    // The child just solved belongs to this node alone, so
                    // no root and no earlier node's child is touched.
                    assert forall|x: Index|
                        pre.arena.child_seq(None).contains(x) implies self.arena.node_of(
                        x,
                    ).last_layout == Some(window_layout) by {
                        pre.arena.lemma_maps_consistent(x, None);
                        assert(x != child);
                    }
                    assert forall|m2: int, k2: int|
                        0 <= m2 < t && 0 <= k2 < pre.arena.child_seq(Some(order@[m2])).len()
                        implies {
                            let c = #[trigger] pre.arena.child_seq(Some(order@[m2]))[k2];
                            self.arena.node_of(c).last_layout == Some(
                                spec_child_layout(
                                    pre.arena.node_of(c),
                                    self.arena.node_of(order@[m2]).last_layout->Some_0,
                                ),
                            )
                        } by {
                        let c = pre.arena.child_seq(Some(order@[m2]))[k2];
                        assert(pre.arena.child_seq(Some(order@[m2])).contains(c));
                        assert(pre.arena.live(order@[m2]));
                        pre.arena.lemma_maps_consistent(c, Some(order@[m2]));
                        assert(c != child) by {
                            if c == child {
                                assert(pre.arena.parent_of(child) == Some(order@[m2]));
                                assert(pre.arena.parent_of(child) == Some(i));
                                assert(order@[m2] == order@[t as int]);
                            }
                        }
                        assert(order@[m2] != child);
                        assert(kid_pre.arena.node_of(c).last_layout == Some(
                            spec_child_layout(
                                pre.arena.node_of(c),
                                kid_pre.arena.node_of(order@[m2]).last_layout->Some_0,
                            ),
                        ));
                    }
                    assert forall|j2: int|
                        0 <= j2 < m + 1 implies self.arena.node_of(
                        #[trigger] kids@[j2],
                    ).last_layout == Some(
                        spec_child_layout(pre.arena.node_of(kids@[j2]), lay),
                    ) by {
                        if j2 < m {
                            assert(kids@.contains(kids@[j2]));
                            pre.arena.lemma_maps_consistent(kids@[j2], Some(i));
                            assert(pre.arena.live(kids@[j2]));
                            if kids@[j2] == child {
                                assert(false);
                            }
                            assert(kid_pre.arena.node_of(kids@[j2]).last_layout == Some(
                                spec_child_layout(pre.arena.node_of(kids@[j2]), lay),
                            ));
                        } else {
                            assert(kids@[j2] == child);
                        }
                    }
                }
                m = m + 1;
            }
            proof {
                // This node's own cache was untouched by its children, so
                // the new per-child records speak of its final layout.
                assert forall|m2: int, k2: int|
                    0 <= m2 < t + 1 && 0 <= k2 < pre.arena.child_seq(Some(order@[m2])).len()
                    implies {
                        let c = #[trigger] pre.arena.child_seq(Some(order@[m2]))[k2];
                        self.arena.node_of(c).last_layout == Some(
                            spec_child_layout(
                                pre.arena.node_of(c),
                                self.arena.node_of(order@[m2]).last_layout->Some_0,
                            ),
                        )
                    } by {
                    if m2 == t {
                        let c = pre.arena.child_seq(Some(order@[m2]))[k2];
                        assert(kids@[k2] == c);
                    }
                }
            }
            t = t + 1;
        }
        proof {
            let post = *self;
            assert forall|j: Index| pre.arena.reachable(j) implies post.arena.node_of(
                j,
            ).last_layout is Some by {
                assert(order@.contains(j));
                let m = choose|m: int| 0 <= m < order@.len() && order@[m] == j;
                match pre.arena.parent_of(order@[m]) {
                    None => {
                        pre.arena.lemma_maps_consistent(j, None);
                        assert(pre.arena.child_seq(None).contains(j));
                    },
                    Some(p) => {
                        let mp = choose|mp: int| 0 <= mp < m && order@[mp] == p;
                        assert(pre.arena.live(p));
                        pre.arena.lemma_maps_consistent(j, Some(p));
                        assert(pre.arena.child_seq(Some(p)).contains(j));
                        let k2 = choose|k2: int|
                            0 <= k2 < pre.arena.child_seq(Some(p)).len() && pre.arena.child_seq(
                                Some(p),
                            )[k2] == j;
                        assert(pre.arena.child_seq(Some(order@[mp]))[k2] == j);
                    },
                }
            }
            assert forall|p: Index, k2: int|
                pre.arena.reachable(p) && 0 <= k2 < pre.arena.child_seq(Some(p)).len() implies {
                    let c = #[trigger] pre.arena.child_seq(Some(p))[k2];
                    post.arena.node_of(c).last_layout == Some(
                        spec_child_layout(
                            pre.arena.node_of(c),
                            post.arena.node_of(p).last_layout->Some_0,
                        ),
                    )
                } by {
                assert(order@.contains(p));
                let m = choose|m: int| 0 <= m < order@.len() && order@[m] == p;
                assert(pre.arena.child_seq(Some(order@[m]))[k2] == pre.arena.child_seq(
                    Some(p),
                )[k2]);
            }
        }
        Ok(())
    }

    /// The interaction state a node renders under: whether the pointer
    /// rests on it, and its layer's activation and focus. A detached node
    /// has no layer and so neither activation nor focus.
    pub open spec fn spec_node_state(self, i: Index) -> InteractionState {
        let hovered = self.state.spec_hovered() == Some(i);
        match self.arena.root_within(i, self.arena.slot_count() + 1) {
            Some(root) => InteractionState {
                hovered,
                active: self.state.active_in(root) == Some(i),
                focused: self.state.focused_in(root) == Some(i),
            },
            None => InteractionState { hovered, active: false, focused: false },
        }
    }

    /// The draw elements of the live tree, collected over one read-only
    /// breadth-first pass and handed to the rendering backend afterwards.
    /// Each visited node contributes its elements in visit order; an
    /// order visits every reachable node exactly once.
    pub fn render(&self) -> (r: KludgineResult<Vec<Element>>)
        requires
            self.wf(),
        ensures
            r matches Ok(elements) && exists|order: Seq<Index>|
                {
                    &&& self.arena.spec_bfs_order(order)
                    &&& elements@ == self.spec_render_seq(order)
                },
    {
        let order = match self.arena.bfs_order() {
            Ok(order) => order,
            Err(e) => {
                return Err(e);
            },
        };
        let mut elements: Vec<Element> = Vec::new();
        let mut k: usize = 0;
        while k < order.len()
            invariant
                self.wf(),
                0 <= k <= order@.len(),
                forall|m: int| 0 <= m < order@.len() ==> self.arena.live(#[trigger] order@[m]),
                elements@ == self.spec_render_seq(order@.take(k as int)),
            decreases order@.len() - k,
        {
            let i = order[k];
            let hovered = match self.state.hovered() {
                Some(h) => h == i,
                None => false,
            };
            let state = match self.arena.layer_root(i) {
                Some(root) => {
                    let active = match self.state.active(root) {
                        Some(a) => a == i,
                        None => false,
                    };
                    let focused = match self.state.focus(root) {
                        Some(f) => f == i,
                        None => false,
                    };
                    InteractionState { hovered, active, focused }
                },
                None => InteractionState { hovered, active: false, focused: false },
            };
            proof {
                assert(state == self.spec_node_state(i));
            }
            let mut chunk = match self.arena.get(i) {
                Some(node) => render_node(node, state),
                None => Vec::new(),
            };
            elements.append(&mut chunk);
            proof {
                assert(order@.take(k as int + 1).drop_last() =~= order@.take(k as int));
                assert(order@.take(k as int + 1).last() == order@[k as int]);
            }
            k = k + 1;
        }
        proof {
            assert(order@.take(order@.len() as int) =~= order@);
        }
        Ok(elements)
    }

    /// The elements the nodes of `order` contribute, in order.
    pub open spec fn spec_render_seq(self, order: Seq<Index>) -> Seq<Element>
        decreases order.len(),
    {
        if order.len() == 0 {
            Seq::<Element>::empty()
        } else {
            self.spec_render_seq(order.drop_last()) + spec_render_node(
                self.arena.node_of(order.last()),
                self.spec_node_state(order.last()),
            )
        }
    }
}

/// The window layout a root-level node is granted: the whole window, no
/// margin, no padding.
pub open spec fn spec_window_layout(window_size: Size) -> Layout {
    Layout {
        bounds: Rect { origin: Point { x: 0, y: 0 }, size: window_size },
        margin: Surround { left: 0, top: 0, right: 0, bottom: 0 },
        padding: Surround { left: 0, top: 0, right: 0, bottom: 0 },
    }
}

/// The constraint one axis of a bounds request hands to the content-size
/// query: a fixed extent constrains to itself, an unspecified one to the
/// space available.
pub open spec fn spec_axis_constraint(requested: Dimension, available: i64) -> Option<i64> {
    match requested {
        Dimension::Length(v) => Some(v),
        Dimension::Auto => Some(available),
    }
}

/// The layout one child receives inside its parent's content rectangle:
/// the rectangle its absolute-bounds request solves to, around the
/// content size its component reports under that rectangle's constraints;
/// no margin, no padding.
pub open spec fn spec_child_layout(child: Node, parent_layout: Layout) -> Layout {
    let inner = parent_layout.spec_inner_bounds();
    Layout {
        bounds: crate::layout::spec_solve_bounds(
            child.bounds,
            child.component.spec_content_size(
                spec_axis_constraint(child.bounds.width, inner.size.width),
                spec_axis_constraint(child.bounds.height, inner.size.height),
            ),
            inner,
        ),
        margin: Surround::spec_zero(),
        padding: Surround::spec_zero(),
    }
}

/// One entry of the render target's append-only list of draw elements.
/// The tree never draws; it hands these to the rendering backend after
/// the pass completes.
#[derive(Clone, Debug)]
pub enum Element {
    /// The cascaded background, painted before the component's own
    /// content.
    Background { bounds: Rect, color: ColorPair },
    /// A prepared text span.
    Text { origin: Point, text: String },
    /// A sprite frame placed into a rectangle.
    Sprite { bounds: Rect },
}

/// The elements one laid-out node contributes: its background, when its
/// effective style variant sets one, then its component's own content. A
/// node without a computed layout draws nothing.
pub open spec fn spec_render_node(node: Node, state: InteractionState) -> Seq<Element> {
    match node.last_layout {
        None => Seq::<Element>::empty(),
        Some(layout) => {
            let style = node.style_sheet.spec_variant(state);
            let background: Seq<Element> = match style.background_color {
                Some(color) => seq![
                    Element::Background {
                        bounds: layout.spec_bounds_without_margin(),
                        color,
                    },
                ],
                None => Seq::<Element>::empty(),
            };
            background + (match node.component {
                Component::Label(label) => seq![
                    Element::Text {
                        origin: layout.spec_inner_bounds().origin,
                        text: label.value,
                    },
                ],
                Component::Image(image) => match image.current_frame {
                    Some(_) => seq![
                        Element::Sprite {
                            bounds: image.spec_target_bounds(layout.spec_inner_bounds()),
                        },
                    ],
                    None => Seq::<Element>::empty(),
                },
                Component::Panel(_) => Seq::<Element>::empty(),
            })
        },
    }
}

/// Collects one node's draw elements.
fn render_node(node: &Node, state: InteractionState) -> (r: Vec<Element>)
    ensures
        r@ == spec_render_node(*node, state),
{
    let mut r: Vec<Element> = Vec::new();
    let layout = match node.last_layout {
        Some(layout) => layout,
        None => {
            proof {
                assert(r@ =~= spec_render_node(*node, state));
            }
            return r;
        },
    };
    let style = node.style_sheet.variant(state);
    match style.background_color {
        Some(color) => {
            r.push(Element::Background { bounds: layout.bounds_without_margin(), color });
        },
        None => {},
    }
    match &node.component {
        Component::Label(label) => {
            r.push(
                Element::Text { origin: layout.inner_bounds().origin, text: label.value.clone() },
            );
        },
        Component::Image(image) => {
            match image.current_frame {
                Some(_) => {
                    r.push(
                        Element::Sprite { bounds: image.target_bounds(&layout.inner_bounds()) },
                    );
                },
                None => {},
            }
        },
        Component::Panel(_) => {},
    }
    proof {
        assert(r@ =~= spec_render_node(*node, state));
    }
    r
}

} // verus!
