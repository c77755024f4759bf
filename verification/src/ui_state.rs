//! Cross-tree state: focus, activation, and redraw scheduling.
//!
//! Focus and activation are scoped per layer — per root-level subtree — so
//! independent component stacks (say, a popup over a window) each keep
//! their own. A layer holds at most one focused and at most one active
//! index by construction.

use crate::arena::Index;
use vstd::prelude::*;

verus! {

/// The focus and activation scope of one root-level subtree, keyed by the
/// subtree's root index.
#[derive(Clone, Copy, Debug, PartialEq, Eq, Structural)]
pub struct Layer {
    pub root: Index,
    pub focus: Option<Index>,
    pub active: Option<Index>,
}

/// Per-window state: one entry per layer that was ever touched, the node
/// the pointer currently rests on, and the redraw scheduling hints
/// components registered. Hover is pointer-global, not per layer: one
/// pointer rests on at most one node.
pub struct UIState {
    layers: Vec<Layer>,
    hover: Option<Index>,
    needs_redraw: bool,
    next_redraw: Option<u64>,
}

impl UIState {
    /// Layer entries are keyed by distinct roots.
    pub closed spec fn wf(self) -> bool {
        forall|i: int, j: int|
            0 <= i < j < self.layers@.len() ==> self.layers@[i].root != self.layers@[j].root
    }

    pub closed spec fn spec_has_layer(self, root: Index) -> bool {
        exists|k: int| 0 <= k < self.layers@.len() && self.layers@[k].root == root
    }

    /// The index holding the layer's focus, if any. A layer never touched
    /// holds no focus.
    pub closed spec fn focused_in(self, root: Index) -> Option<Index> {
        if self.spec_has_layer(root) {
            let k = choose|k: int| 0 <= k < self.layers@.len() && self.layers@[k].root == root;
            self.layers@[k].focus
        } else {
            None
        }
    }

    /// The index the layer holds as active (pressed), if any.
    pub closed spec fn active_in(self, root: Index) -> Option<Index> {
        if self.spec_has_layer(root) {
            let k = choose|k: int| 0 <= k < self.layers@.len() && self.layers@[k].root == root;
            self.layers@[k].active
        } else {
            None
        }
    }

    /// Under distinct roots, any entry whose root matches decides both
    /// lookups.
    proof fn lemma_layer_lookup(self, k: int)
        requires
            self.wf(),
            0 <= k < self.layers@.len(),
        ensures
            self.spec_has_layer(self.layers@[k].root),
            self.focused_in(self.layers@[k].root) == self.layers@[k].focus,
            self.active_in(self.layers@[k].root) == self.layers@[k].active,
    {
        let root = self.layers@[k].root;
        assert(self.spec_has_layer(root));
        let k2 = choose|k2: int| 0 <= k2 < self.layers@.len() && self.layers@[k2].root == root;
        if k2 != k {
            if k2 < k {
                assert(self.layers@[k2].root != self.layers@[k].root);
            } else {
                assert(self.layers@[k].root != self.layers@[k2].root);
            }
        }
    }

    /// Fresh state: no layers, no pending redraw.
    pub fn new() -> (r: UIState)
        ensures
            r.wf(),
            forall|root: Index| !r.spec_has_layer(root),
            forall|root: Index| r.focused_in(root) is None && r.active_in(root) is None,
            r.spec_hovered() is None,
            !r.spec_needs_redraw(),
            r.spec_next_redraw() is None,
    {
        UIState { layers: Vec::new(), hover: None, needs_redraw: false, next_redraw: None }
    }

    /// The position of the layer entry for `root`, if one exists.
    fn find_layer(&self, root: Index) -> (r: Option<usize>)
        ensures
            match r {
                Some(k) => k < self.layers@.len() && self.layers@[k as int].root == root,
                None => !self.spec_has_layer(root),
            },
    {
        let mut k: usize = 0;
        while k < self.layers.len()
            invariant
                k <= self.layers@.len(),
                forall|j: int| 0 <= j < k ==> self.layers@[j].root != root,
            decreases self.layers@.len() - k,
        {
            if self.layers[k].root == root {
                return Some(k);
            }
            k = k + 1;
        }
        None
    }

    /// Moves the layer's focus to `focus` — `None` always clears it. Every
    /// other layer keeps its state.
    pub fn focus_on(&mut self, layer_root: Index, focus: Option<Index>)
        requires
            old(self).wf(),
        ensures
            final(self).wf(),
            final(self).focused_in(layer_root) == focus,
            final(self).active_in(layer_root) == old(self).active_in(layer_root),
            forall|r2: Index|
                r2 != layer_root ==> final(self).focused_in(r2) == old(self).focused_in(r2)
                    && final(self).active_in(r2) == old(self).active_in(r2)
                    && final(self).spec_has_layer(r2) == old(self).spec_has_layer(r2),
            final(self).spec_hovered() == old(self).spec_hovered(),
            final(self).spec_needs_redraw() == old(self).spec_needs_redraw(),
            final(self).spec_next_redraw() == old(self).spec_next_redraw(),
    {
        match self.find_layer(layer_root) {
            Some(k) => {
                self.layers[k].focus = focus;
                proof {
                    let post = *self;
                    post.lemma_layer_lookup(k as int);
                    old(self).lemma_layer_lookup(k as int);
                    assert forall|r2: Index| r2 != layer_root implies post.focused_in(r2)
                        == old(self).focused_in(r2) && post.active_in(r2)
                        == old(self).active_in(r2) && post.spec_has_layer(r2)
                        == old(self).spec_has_layer(r2) by {
                        post.lemma_other_layers_unchanged(*old(self), k as int, r2);
                    }
                }
            },
            None => {
                self.layers.push(Layer { root: layer_root, focus, active: None });
                proof {
                    let post = *self;
                    post.lemma_layer_lookup(post.layers@.len() - 1);
                    assert forall|r2: Index| r2 != layer_root implies post.focused_in(r2)
                        == old(self).focused_in(r2) && post.active_in(r2)
                        == old(self).active_in(r2) && post.spec_has_layer(r2)
                        == old(self).spec_has_layer(r2) by {
                        post.lemma_other_layers_unchanged(
                            *old(self),
                            post.layers@.len() - 1,
                            r2,
                        );
                    }
                }
            },
        }
    }

    /// When only the entry at `k` differs (or was appended), every layer
    /// keyed by a different root reads the same as before.
    proof fn lemma_other_layers_unchanged(self, pre: UIState, k: int, r2: Index)
        requires
            pre.wf(),
            self.wf(),
            0 <= k < self.layers@.len(),
            self.layers@.len() == pre.layers@.len() || self.layers@.len() == pre.layers@.len()
                + 1,
            k == self.layers@.len() - 1 || self.layers@.len() == pre.layers@.len(),
            forall|j: int|
                0 <= j < pre.layers@.len() && j != k ==> self.layers@[j] == pre.layers@[j],
            forall|j: int|
                0 <= j < pre.layers@.len() && j != k ==> self.layers@[j].root == pre.layers@[j].root,
            r2 != self.layers@[k].root,
            self.layers@.len() == pre.layers@.len() ==> self.layers@[k].root == pre.layers@[k].root,
        ensures
            self.focused_in(r2) == pre.focused_in(r2),
            self.active_in(r2) == pre.active_in(r2),
            self.spec_has_layer(r2) == pre.spec_has_layer(r2),
    {
        if self.spec_has_layer(r2) {
            let j = choose|j: int| 0 <= j < self.layers@.len() && self.layers@[j].root == r2;
            assert(j != k);
            assert(pre.layers@[j].root == r2);
            assert(pre.spec_has_layer(r2));
            self.lemma_layer_lookup(j);
            pre.lemma_layer_lookup(j);
        }
        if pre.spec_has_layer(r2) {
            let j = choose|j: int| 0 <= j < pre.layers@.len() && pre.layers@[j].root == r2;
            assert(j != k || pre.layers@.len() == self.layers@.len());
            if j != k {
                assert(self.layers@[j].root == r2);
                assert(self.spec_has_layer(r2));
            } else {
                assert(self.layers@[j].root == r2);
                assert(self.spec_has_layer(r2));
            }
        }
    }

    /// The index holding the layer's focus right now.
    pub fn focus(&self, layer_root: Index) -> (r: Option<Index>)
        requires
            self.wf(),
        ensures
            r == self.focused_in(layer_root),
    {
        match self.find_layer(layer_root) {
            Some(k) => {
                proof {
                    self.lemma_layer_lookup(k as int);
                }
                self.layers[k].focus
            },
            None => None,
        }
    }

    /// The index the layer holds as active right now.
    pub fn active(&self, layer_root: Index) -> (r: Option<Index>)
        requires
            self.wf(),
        ensures
            r == self.active_in(layer_root),
    {
        match self.find_layer(layer_root) {
            Some(k) => {
                proof {
                    self.lemma_layer_lookup(k as int);
                }
                self.layers[k].active
            },
            None => None,
        }
    }

    /// Marks `index` as the layer's active (pressed) node.
    pub fn activate(&mut self, layer_root: Index, index: Index)
        requires
            old(self).wf(),
        ensures
            final(self).wf(),
            final(self).active_in(layer_root) == Some(index),
            final(self).focused_in(layer_root) == old(self).focused_in(layer_root),
            forall|r2: Index|
                r2 != layer_root ==> final(self).focused_in(r2) == old(self).focused_in(r2)
                    && final(self).active_in(r2) == old(self).active_in(r2)
                    && final(self).spec_has_layer(r2) == old(self).spec_has_layer(r2),
            final(self).spec_hovered() == old(self).spec_hovered(),
            final(self).spec_needs_redraw() == old(self).spec_needs_redraw(),
            final(self).spec_next_redraw() == old(self).spec_next_redraw(),
    {
        match self.find_layer(layer_root) {
            Some(k) => {
                self.layers[k].active = Some(index);
                proof {
                    let post = *self;
                    post.lemma_layer_lookup(k as int);
                    old(self).lemma_layer_lookup(k as int);
                    assert forall|r2: Index| r2 != layer_root implies post.focused_in(r2)
                        == old(self).focused_in(r2) && post.active_in(r2)
                        == old(self).active_in(r2) && post.spec_has_layer(r2)
                        == old(self).spec_has_layer(r2) by {
                        post.lemma_other_layers_unchanged(*old(self), k as int, r2);
                    }
                }
            },
            None => {
                self.layers.push(Layer { root: layer_root, focus: None, active: Some(index) });
                proof {
                    let post = *self;
                    post.lemma_layer_lookup(post.layers@.len() - 1);
                    assert forall|r2: Index| r2 != layer_root implies post.focused_in(r2)
                        == old(self).focused_in(r2) && post.active_in(r2)
                        == old(self).active_in(r2) && post.spec_has_layer(r2)
                        == old(self).spec_has_layer(r2) by {
                        post.lemma_other_layers_unchanged(
                            *old(self),
                            post.layers@.len() - 1,
                            r2,
                        );
                    }
                }
            },
        }
    }

    /// Clears the layer's active node.
    pub fn deactivate(&mut self, layer_root: Index)
        requires
            old(self).wf(),
        ensures
            final(self).wf(),
            final(self).active_in(layer_root) is None,
            final(self).spec_has_layer(layer_root) == old(self).spec_has_layer(layer_root),
            final(self).focused_in(layer_root) == old(self).focused_in(layer_root),
            forall|r2: Index|
                r2 != layer_root ==> final(self).focused_in(r2) == old(self).focused_in(r2)
                    && final(self).active_in(r2) == old(self).active_in(r2)
                    && final(self).spec_has_layer(r2) == old(self).spec_has_layer(r2),
            final(self).spec_hovered() == old(self).spec_hovered(),
            final(self).spec_needs_redraw() == old(self).spec_needs_redraw(),
            final(self).spec_next_redraw() == old(self).spec_next_redraw(),
    {
        match self.find_layer(layer_root) {
            Some(k) => {
                self.layers[k].active = None;
                proof {
                    let post = *self;
                    post.lemma_layer_lookup(k as int);
                    old(self).lemma_layer_lookup(k as int);
                    assert forall|r2: Index| r2 != layer_root implies post.focused_in(r2)
                        == old(self).focused_in(r2) && post.active_in(r2)
                        == old(self).active_in(r2) && post.spec_has_layer(r2)
                        == old(self).spec_has_layer(r2) by {
                        post.lemma_other_layers_unchanged(*old(self), k as int, r2);
                    }
                }
            },
            None => {},
        }
    }

    /// Drops every reference the state keeps to a removed node: a layer
    /// whose focus or active index named it lets go, so no dangling focus
    /// survives a removal.
    pub fn removed_element(&mut self, index: Index)
        requires
            old(self).wf(),
        ensures
            final(self).wf(),
            forall|root: Index|
                final(self).focused_in(root) != Some(index) && final(self).active_in(root)
                    != Some(index),
            forall|root: Index|
                old(self).focused_in(root) != Some(index) ==> final(self).focused_in(root)
                    == old(self).focused_in(root),
            forall|root: Index|
                old(self).active_in(root) != Some(index) ==> final(self).active_in(root)
                    == old(self).active_in(root),
            forall|root: Index| final(self).spec_has_layer(root) == old(self).spec_has_layer(root),
            final(self).spec_hovered() != Some(index),
            old(self).spec_hovered() != Some(index) ==> final(self).spec_hovered() == old(
                self,
            ).spec_hovered(),
            final(self).spec_needs_redraw() == old(self).spec_needs_redraw(),
            final(self).spec_next_redraw() == old(self).spec_next_redraw(),
    {
        let clear_hover = match self.hover {
            Some(h) => h == index,
            None => false,
        };
        if clear_hover {
            self.hover = None;
        }
        let mut k: usize = 0;
        while k < self.layers.len()
            invariant
                k <= self.layers@.len(),
                self.layers@.len() == old(self).layers@.len(),
                self.hover == (if old(self).hover == Some(index) {
                    None
                } else {
                    old(self).hover
                }),
                self.needs_redraw == old(self).needs_redraw,
                self.next_redraw == old(self).next_redraw,
                forall|j: int|
                    0 <= j < self.layers@.len() ==> (#[trigger] self.layers@[j]).root == old(
                        self,
                    ).layers@[j].root,
                forall|j: int|
                    0 <= j < k ==> (#[trigger] self.layers@[j]).focus != Some(index) && self.layers@[j].active
                        != Some(index),
                forall|j: int|
                    0 <= j < self.layers@.len() ==> (#[trigger] self.layers@[j]).focus == (
                    if j < k && old(self).layers@[j].focus == Some(index) {
                        None
                    } else {
                        old(self).layers@[j].focus
                    }),
                forall|j: int|
                    0 <= j < self.layers@.len() ==> (#[trigger] self.layers@[j]).active == (
                    if j < k && old(self).layers@[j].active == Some(index) {
                        None
                    } else {
                        old(self).layers@[j].active
                    }),
            decreases self.layers@.len() - k,
        {
            let clear_focus = match self.layers[k].focus {
                Some(f) => f == index,
                None => false,
            };
            if clear_focus {
                self.layers[k].focus = None;
            }
            let clear_active = match self.layers[k].active {
                Some(a) => a == index,
                None => false,
            };
            if clear_active {
                self.layers[k].active = None;
            }
            k = k + 1;
        }
        proof {
            let pre = *old(self);
            let post = *self;
            assert forall|root: Index| post.focused_in(root) != Some(index) && post.active_in(root)
                != Some(index) && post.spec_has_layer(root) == pre.spec_has_layer(root) && (
            pre.focused_in(root) != Some(index) ==> post.focused_in(root) == pre.focused_in(root))
                && (pre.active_in(root) != Some(index) ==> post.active_in(root) == pre.active_in(
                root,
            )) by {
                if post.spec_has_layer(root) {
                    let j = choose|j: int|
                        0 <= j < post.layers@.len() && post.layers@[j].root == root;
                    post.lemma_layer_lookup(j);
                    assert(pre.layers@[j].root == root);
                    pre.lemma_layer_lookup(j);
                } else {
                    if pre.spec_has_layer(root) {
                        let j = choose|j: int|
                            0 <= j < pre.layers@.len() && pre.layers@[j].root == root;
                        assert(post.layers@[j].root == root);
                    }
                }
            }
        }
    }

    /// A snapshot of every layer entry: distinct roots, each carrying the
    /// focus and activation the state holds for it.
    pub fn layer_entries(&self) -> (r: Vec<Layer>)
        requires
            self.wf(),
        ensures
            forall|i: int, j: int| 0 <= i < j < r@.len() ==> r@[i].root != r@[j].root,
            forall|k: int|
                0 <= k < r@.len() ==> {
                    &&& self.spec_has_layer((#[trigger] r@[k]).root)
                    &&& self.focused_in(r@[k].root) == r@[k].focus
                    &&& self.active_in(r@[k].root) == r@[k].active
                },
            forall|root: Index|
                self.spec_has_layer(root) ==> exists|k: int|
                    0 <= k < r@.len() && (#[trigger] r@[k]).root == root,
    {
        let mut r: Vec<Layer> = Vec::new();
        let mut k: usize = 0;
        while k < self.layers.len()
            invariant
                0 <= k <= self.layers@.len(),
                r@ == self.layers@.subrange(0, k as int),
            decreases self.layers@.len() - k,
        {
            r.push(self.layers[k]);
            k = k + 1;
        }
        proof {
            assert(r@ =~= self.layers@);
            assert forall|k2: int| 0 <= k2 < r@.len() implies {
                &&& self.spec_has_layer((#[trigger] r@[k2]).root)
                &&& self.focused_in(r@[k2].root) == r@[k2].focus
                &&& self.active_in(r@[k2].root) == r@[k2].active
            } by {
                self.lemma_layer_lookup(k2);
            }
        }
        r
    }

    /// A layer never touched holds neither focus nor activation.
    pub proof fn lemma_untracked_layer(self, root: Index)
        requires
            !self.spec_has_layer(root),
        ensures
            self.focused_in(root) is None,
            self.active_in(root) is None,
    {
    }

    /// At most one index holds a layer's focus at any time.
    pub proof fn lemma_at_most_one_focus(self, layer_root: Index, a: Index, b: Index)
        requires
            self.focused_in(layer_root) == Some(a),
            self.focused_in(layer_root) == Some(b),
        ensures
            a == b,
    {
    }

    /// The node the pointer currently rests on, if any.
    pub closed spec fn spec_hovered(self) -> Option<Index> {
        self.hover
    }

    pub fn hovered(&self) -> (r: Option<Index>)
        ensures
            r == self.spec_hovered(),
    {
        self.hover
    }

    /// Moves the pointer's rest to `hover` — `None` clears it. Focus,
    /// activation, and the redraw hints are untouched.
    pub fn set_hover(&mut self, hover: Option<Index>)
        requires
            old(self).wf(),
        ensures
            final(self).wf(),
            final(self).spec_hovered() == hover,
            forall|root: Index|
                final(self).focused_in(root) == old(self).focused_in(root)
                    && final(self).active_in(root) == old(self).active_in(root)
                    && final(self).spec_has_layer(root) == old(self).spec_has_layer(root),
            final(self).spec_needs_redraw() == old(self).spec_needs_redraw(),
            final(self).spec_next_redraw() == old(self).spec_next_redraw(),
    {
        self.hover = hover;
    }

    pub closed spec fn spec_needs_redraw(self) -> bool {
        self.needs_redraw
    }

    /// The earliest instant by which a redraw was requested, in the frame
    /// driver's ticks.
    pub closed spec fn spec_next_redraw(self) -> Option<u64> {
        self.next_redraw
    }

    /// Asks the frame driver for an immediate redraw.
    pub fn set_needs_redraw(&mut self)
        requires
            old(self).wf(),
        ensures
            final(self).wf(),
            final(self).spec_needs_redraw(),
            final(self).spec_next_redraw() == old(self).spec_next_redraw(),
            forall|root: Index|
                final(self).focused_in(root) == old(self).focused_in(root)
                    && final(self).active_in(root) == old(self).active_in(root),
            final(self).spec_hovered() == old(self).spec_hovered(),
    {
        self.needs_redraw = true;
    }

    /// Acknowledges a redraw: clears both the immediate request and the
    /// deadline.
    pub fn clear_redraw(&mut self)
        requires
            old(self).wf(),
        ensures
            final(self).wf(),
            !final(self).spec_needs_redraw(),
            final(self).spec_next_redraw() is None,
            forall|root: Index|
                final(self).focused_in(root) == old(self).focused_in(root)
                    && final(self).active_in(root) == old(self).active_in(root),
            final(self).spec_hovered() == old(self).spec_hovered(),
    {
        self.needs_redraw = false;
        self.next_redraw = None;
    }

    pub fn needs_redraw(&self) -> (r: bool)
        ensures
            r == self.spec_needs_redraw(),
    {
        self.needs_redraw
    }

    pub fn next_redraw(&self) -> (r: Option<u64>)
        ensures
            r == self.spec_next_redraw(),
    {
        self.next_redraw
    }

    /// Registers "redraw no later than `instant`". The earliest registered
    /// deadline wins; the driver sleeps at most until it.
    pub fn estimate_next_frame_instant(&mut self, instant: u64)
        requires
            old(self).wf(),
        ensures
            final(self).wf(),
            final(self).spec_next_redraw() == Some(
                match old(self).spec_next_redraw() {
                    Some(existing) => if instant < existing {
                        instant
                    } else {
                        existing
                    },
                    None => instant,
                },
            ),
            final(self).spec_needs_redraw() == old(self).spec_needs_redraw(),
            forall|root: Index|
                final(self).focused_in(root) == old(self).focused_in(root)
                    && final(self).active_in(root) == old(self).active_in(root),
            final(self).spec_hovered() == old(self).spec_hovered(),
    {
        self.next_redraw = match self.next_redraw {
            Some(existing) => if instant < existing {
                Some(instant)
            } else {
                Some(existing)
            },
            None => Some(instant),
        };
    }
}

} // verus!
