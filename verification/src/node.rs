//! The per-entity record stored in the arena.

use crate::component::Callback;
use crate::component::Component;
use crate::math::Dimension;
use crate::math::Rect;
use crate::math::Surround;
use crate::style::StyleSheet;
use vstd::prelude::*;

verus! {

/// A node's absolute-bounds request: each edge and extent independently
/// unspecified or a fixed length.
#[derive(Clone, Copy, Debug, PartialEq, Eq, Structural)]
pub struct AbsoluteBounds {
    pub left: Dimension,
    pub top: Dimension,
    pub right: Dimension,
    pub bottom: Dimension,
    pub width: Dimension,
    pub height: Dimension,
}

impl AbsoluteBounds {
    pub open spec fn spec_unspecified() -> AbsoluteBounds {
        AbsoluteBounds {
            left: Dimension::Auto,
            top: Dimension::Auto,
            right: Dimension::Auto,
            bottom: Dimension::Auto,
            width: Dimension::Auto,
            height: Dimension::Auto,
        }
    }
}

impl Default for AbsoluteBounds {
    /// By default every edge and extent is left to the layout engine.
    fn default() -> (r: AbsoluteBounds)
        ensures
            r == AbsoluteBounds::spec_unspecified(),
    {
        AbsoluteBounds {
            left: Dimension::Auto,
            top: Dimension::Auto,
            right: Dimension::Auto,
            bottom: Dimension::Auto,
            width: Dimension::Auto,
            height: Dimension::Auto,
        }
    }
}

/// A computed layout: the allotted rectangle together with the margin and
/// padding that carve the content rectangle out of it.
#[derive(Clone, Copy, Debug, PartialEq, Eq, Structural)]
pub struct Layout {
    pub bounds: Rect,
    pub margin: Surround,
    pub padding: Surround,
}

impl Layout {
    pub fn new(bounds: Rect, margin: Surround, padding: Surround) -> (r: Layout)
        ensures
            r == (Layout { bounds, margin, padding }),
    {
        Layout { bounds, margin, padding }
    }

    /// The allotted rectangle less the margin. Hit testing uses this
    /// rectangle.
    pub open spec fn spec_bounds_without_margin(self) -> Rect {
        self.bounds.spec_inset(self.margin)
    }

    pub fn bounds_without_margin(&self) -> (r: Rect)
        ensures
            r == self.spec_bounds_without_margin(),
    {
        self.bounds.inset(self.margin)
    }

    /// The content rectangle: the allotted rectangle less margin and
    /// padding.
    pub open spec fn spec_inner_bounds(self) -> Rect {
        self.bounds.spec_inset(self.margin).spec_inset(self.padding)
    }

    pub fn inner_bounds(&self) -> (r: Rect)
        ensures
            r == self.spec_inner_bounds(),
    {
        self.bounds.inset(self.margin).inset(self.padding)
    }
}

/// The record the arena keeps for one component instance.
pub struct Node {
    /// The component value that gives the node its behavior.
    pub component: Component,
    /// The node's style variants, one per interaction state.
    pub style_sheet: StyleSheet,
    /// The node's absolute-bounds request.
    pub bounds: AbsoluteBounds,
    /// Whether the node takes part in hit testing and activation.
    pub interactive: bool,
    /// Where the node's outbound events go, if anywhere.
    pub callback: Option<Callback>,
    /// The rectangle the last layout pass computed for the node.
    pub last_layout: Option<Layout>,
    /// Whether the node's initialize hook has run.
    pub initialized: bool,
}

impl Node {
    pub fn new(
        component: Component,
        style_sheet: StyleSheet,
        bounds: AbsoluteBounds,
        interactive: bool,
        callback: Option<Callback>,
    ) -> (r: Node)
        ensures
            r.component == component,
            r.style_sheet == style_sheet,
            r.bounds == bounds,
            r.interactive == interactive,
            r.callback == callback,
            r.last_layout is None,
            !r.initialized,
    {
        Node {
            component,
            style_sheet,
            bounds,
            interactive,
            callback,
            last_layout: None,
            initialized: false,
        }
    }
}

} // verus!
