//! A retained-mode user interface component tree.
//!
//! Nodes live in a central, generationally indexed arena ([`arena::HierarchicalArena`]).
//! Each node owns one component value, a style sheet with one variant per
//! interaction state, an absolute-bounds request, and a cache of its last
//! computed layout. A capability handle ([`context::Context`]) scopes tree
//! access to one index; focus and activation are tracked per layer in
//! [`ui_state::UIState`]; rows of children are arranged by the chain layout
//! in [`layout`].

pub mod arena;
pub mod component;
pub mod context;
pub mod event;
pub mod layout;
pub mod math;
pub mod node;
pub mod style;
pub mod theme;
pub mod ui_state;

use vstd::prelude::*;

verus! {

/// The error taxonomy of the tree.
///
/// Lookup failures are recoverable: removal races are expected, and most
/// callers treat them as a no-op. A detected cycle signals a corrupted
/// adjacency table handed in from outside. A missing resource (such as a
/// sprite tag) is surfaced to the initializing component. An unhandled
/// message signals a component that was wired to receive messages without
/// implementing the capability.
#[derive(Clone, Copy, Debug, PartialEq, Eq, Structural)]
pub enum KludgineError {
    /// The index is stale or was never allocated.
    LookupFailed,
    /// A traversal revisited an index: the adjacency table is cyclic.
    CycleDetected,
    /// A named resource (for example a sprite tag) does not exist.
    ResourceMissing,
    /// A message or command reached a component that does not handle it.
    UnhandledMessage,
}

/// The result type used throughout the tree.
pub type KludgineResult<T> = Result<T, KludgineError>;

} // verus!
