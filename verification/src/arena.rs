//! The central owning store of all nodes.
//!
//! Nodes are addressed by generation-tagged [`Index`] values: a reused slot
//! bumps its generation, so a stale index fails lookups instead of reaching
//! freed or reused data. The parent/child relationship is kept as two maps —
//! parent-of and children-of — whose mutual consistency is part of the
//! arena's well-formedness and is preserved by every operation.

use crate::component::Command;
use crate::component::Component;
use crate::component::Message;
use crate::node::Layout;
use crate::node::Node;
use crate::style::StyleSheet;
use crate::KludgineError;
use crate::KludgineResult;
use vstd::prelude::*;

verus! {

broadcast use vstd::seq_lib::lemma_seq_contains_after_push;

/// A stable, generation-checked key into the arena.
#[derive(Clone, Copy, Debug, PartialEq, Eq, Structural)]
pub struct Index {
    pub slot: usize,
    pub generation: u64,
}

impl Index {
    pub fn new(slot: usize, generation: u64) -> (r: Index)
        ensures
            r == (Index { slot, generation }),
    {
        Index { slot, generation }
    }
}

/// One storage slot: the generation its current (or next) occupant carries,
/// and the occupant itself.
struct Slot {
    generation: u64,
    node: Option<Node>,
}

/// The parent-of entry for one slot.
#[derive(Clone, Copy)]
enum ParentEntry {
    /// The slot is vacant.
    Vacant,
    /// The occupant is a root: its parent is none.
    Root,
    /// The occupant's parent. The referenced index may have died since;
    /// such an occupant is detached and sits in no children list.
    Child(Index),
}

/// The arena: generational node storage plus the two adjacency maps.
pub struct HierarchicalArena {
    slots: Vec<Slot>,
    parents: Vec<ParentEntry>,
    children: Vec<Vec<Index>>,
    root_children: Vec<Index>,
}

pub open spec fn seq_distinct(s: Seq<Index>) -> bool {
    forall|i: int, j: int| 0 <= i < j < s.len() ==> s[i] != s[j]
}

impl HierarchicalArena {
    /// How many slots the arena has ever allocated.
    pub closed spec fn slot_count(self) -> nat {
        self.slots@.len()
    }

    /// The generation the given slot currently carries.
    pub closed spec fn slot_generation(self, slot: int) -> u64 {
        self.slots@[slot].generation
    }

    /// Whether `index` resolves to a live node.
    pub closed spec fn live(self, index: Index) -> bool {
        &&& index.slot < self.slots@.len()
        &&& self.slots@[index.slot as int].node is Some
        &&& self.slots@[index.slot as int].generation == index.generation
    }

    /// The node a live index resolves to.
    pub closed spec fn node_of(self, index: Index) -> Node {
        self.slots@[index.slot as int].node->Some_0
    }

    /// The parent of a live index: `None` for a root.
    pub closed spec fn parent_of(self, index: Index) -> Option<Index> {
        match self.parents@[index.slot as int] {
            ParentEntry::Child(p) => Some(p),
            _ => None,
        }
    }

    /// The children-of map: the child list kept for `parent`, where `None`
    /// names the implicit root set.
    pub closed spec fn child_seq(self, parent: Option<Index>) -> Seq<Index> {
        match parent {
            None => self.root_children@,
            Some(p) => self.children@[p.slot as int]@,
        }
    }

    /// Whether `child` sits in the children list kept for `parent`.
    pub open spec fn is_child_of(self, child: Index, parent: Option<Index>) -> bool {
        self.child_seq(parent).contains(child)
    }

    /// Whether `parent` names a valid children list: the root set, or a
    /// live node's list.
    pub open spec fn valid_parent(self, parent: Option<Index>) -> bool {
        match parent {
            None => true,
            Some(p) => self.live(p),
        }
    }

    /// Well-formedness: the three stores line up, and the parent-of and
    /// children-of maps are mutually consistent — a live child sits in the
    /// list of its live parent (or the root set), and in no other.
    pub closed spec fn wf(self) -> bool {
        &&& self.parents@.len() == self.slots@.len()
        &&& self.children@.len() == self.slots@.len()
        // A slot is vacant exactly when its parent entry says so.
        &&& (forall|s: int|
            0 <= s < self.slots@.len() ==> ((#[trigger] self.parents@[s]) is Vacant <==> self.slots@[s].node is None))
        // Vacant slots keep no children entries.
        &&& (forall|s: int|
            0 <= s < self.slots@.len() && self.slots@[s].node is None ==> (
            #[trigger] self.children@[s]@).len() == 0)
        // The root set holds exactly the live roots, each once.
        &&& seq_distinct(self.root_children@)
        &&& (forall|k: int|
            0 <= k < self.root_children@.len() ==> self.live(#[trigger] self.root_children@[k])
                && self.parents@[self.root_children@[k].slot as int] is Root)
        // Each children list holds live nodes whose parent is exactly the
        // live occupant of that slot, each once.
        &&& (forall|s: int|
            0 <= s < self.children@.len() ==> seq_distinct(#[trigger] self.children@[s]@))
        &&& (forall|s: int, k: int|
            0 <= s < self.children@.len() && 0 <= k < self.children@[s]@.len() ==> {
                let c = #[trigger] self.children@[s]@[k];
                &&& self.live(c)
                &&& self.slots@[s].node is Some
                &&& match self.parents@[c.slot as int] {
                    ParentEntry::Child(p) => p.slot as int == s && p.generation
                        == self.slots@[s].generation,
                    _ => false,
                }
            })
        // Conversely, every live node sits in the list its parent entry
        // names, when that parent is the root set or still alive.
        &&& (forall|c: Index|
            #[trigger] self.live(c) && self.parents@[c.slot as int] is Root
                ==> self.root_children@.contains(c))
        &&& (forall|c: Index, p: Index|
            #![trigger self.live(c), self.live(p)]
            self.live(c) && self.parents@[c.slot as int] == ParentEntry::Child(p) && self.live(p)
                ==> self.children@[p.slot as int]@.contains(c))
        // A dangling parent reference is strictly older than its slot's
        // current occupant-to-be, so a reused slot's fresh index can never
        // alias it. The one exception is a slot whose generation counter is
        // exhausted; such a slot is never reused.
        &&& (forall|c: Index|
            #[trigger] self.live(c) ==> match self.parents@[c.slot as int] {
                ParentEntry::Child(p) => {
                    &&& p.slot < self.slots@.len()
                    &&& p.generation <= self.slots@[p.slot as int].generation
                    &&& (p.generation == self.slots@[p.slot as int].generation
                        && self.slots@[p.slot as int].node is None ==> p.generation == u64::MAX)
                },
                _ => true,
            })
    }

    /// The mutual-consistency law of the two adjacency maps: a child
    /// appears in the children list kept for a parent exactly when that
    /// child is live and its parent-of entry names that parent (the root
    /// set for `None`), and — for a named parent — the parent is live.
    pub proof fn lemma_maps_consistent(self, child: Index, parent: Option<Index>)
        requires
            self.wf(),
            self.valid_parent(parent),
        ensures
            self.is_child_of(child, parent) <==> (self.live(child) && self.parent_of(child)
                == parent),
    {
        match parent {
            None => {
                if self.root_children@.contains(child) {
                    let k = choose|k: int|
                        0 <= k < self.root_children@.len() && self.root_children@[k] == child;
                    assert(self.live(self.root_children@[k]));
                }
            },
            Some(p) => {
                if self.children@[p.slot as int]@.contains(child) {
                    let k = choose|k: int|
                        0 <= k < self.children@[p.slot as int]@.len() && self.children@[p.slot as int]@[k]
                            == child;
                    assert(self.children@[p.slot as int]@[k] == child);
                    assert(self.live(child));
                    match self.parents@[child.slot as int] {
                        ParentEntry::Child(q) => {
                            assert(q.slot == p.slot && q.generation == self.slots@[p.slot
                                as int].generation);
                            assert(q == p);
                        },
                        _ => {
                            assert(false);
                        },
                    }
                }
            },
        }
    }

    /// A children list never names an index twice.
    pub proof fn lemma_child_seq_distinct(self, parent: Option<Index>)
        requires
            self.wf(),
            self.valid_parent(parent),
        ensures
            seq_distinct(self.child_seq(parent)),
    {
    }

    /// A fresh, empty arena.
    pub fn new() -> (r: HierarchicalArena)
        ensures
            r.wf(),
            r.slot_count() == 0,
            r.child_seq(None) == Seq::<Index>::empty(),
            forall|i: Index| !r.live(i),
    {
        HierarchicalArena {
            slots: Vec::new(),
            parents: Vec::new(),
            children: Vec::new(),
            root_children: Vec::new(),
        }
    }

    /// Whether `index` currently resolves to a node.
    pub fn contains(&self, index: Index) -> (r: bool)
        ensures
            r == self.live(index),
    {
        index.slot < self.slots.len() && self.slots[index.slot].node.is_some()
            && self.slots[index.slot].generation == index.generation
    }

    /// A read-only view of the node behind `index`; `None` for a stale or
    /// never-allocated index.
    pub fn get(&self, index: Index) -> (r: Option<&Node>)
        ensures
            match r {
                Some(node) => self.live(index) && *node == self.node_of(index),
                None => !self.live(index),
            },
    {
        if index.slot < self.slots.len() && self.slots[index.slot].generation == index.generation {
            self.slots[index.slot].node.as_ref()
        } else {
            None
        }
    }

    /// The parent link of the node behind `index`: `Some(None)` for a
    /// root, `Some(Some(p))` for a child (`p` itself may have died since),
    /// `None` when the index does not resolve.
    pub fn parent(&self, index: Index) -> (r: Option<Option<Index>>)
        requires
            self.wf(),
        ensures
            r == (if self.live(index) {
                Some(self.parent_of(index))
            } else {
                None::<Option<Index>>
            }),
    {
        if self.contains(index) {
            match self.parents[index.slot] {
                ParentEntry::Child(p) => Some(Some(p)),
                _ => Some(None),
            }
        } else {
            None
        }
    }

    /// The root the parent chain of `i` reaches within `fuel` steps, if
    /// the chain stays live and gets there.
    pub open spec fn root_within(self, i: Index, fuel: nat) -> Option<Index>
        decreases fuel,
    {
        if !self.live(i) {
            None
        } else {
            match self.parent_of(i) {
                None => Some(i),
                Some(p) => if fuel == 0 {
                    None
                } else {
                    self.root_within(p, (fuel - 1) as nat)
                },
            }
        }
    }

    /// The root of the layer that `index` belongs to: the top of its
    /// parent chain. A detached node — one whose chain hits a dead parent
    /// or never ends — has none. One more step than there are slots always
    /// suffices: a longer live chain would have to repeat a slot.
    pub fn layer_root(&self, index: Index) -> (r: Option<Index>)
        requires
            self.wf(),
        ensures
            r == self.root_within(index, self.slot_count() + 1),
    {
        let ghost full_fuel = self.slot_count() + 1;
        let mut current = index;
        let mut fuel: usize = self.slots.len();
        loop
            invariant
                self.wf(),
                fuel <= self.slot_count(),
                full_fuel == self.slot_count() + 1,
                self.root_within(index, full_fuel) == self.root_within(current, fuel as nat + 1),
            decreases fuel,
        {
            if !self.contains(current) {
                return None;
            }
            match self.parents[current.slot] {
                ParentEntry::Child(p) => {
                    if fuel == 0 {
                        // Out of steps: the chain may stand exactly at a
                        // root, which zero remaining fuel still resolves.
                        proof {
                            assert(self.root_within(current, 1) == self.root_within(p, 0));
                        }
                        if self.contains(p) {
                            return match self.parents[p.slot] {
                                ParentEntry::Child(_) => None,
                                _ => Some(p),
                            };
                        }
                        return None;
                    }
                    current = p;
                    fuel = fuel - 1;
                },
                _ => {
                    return Some(current);
                },
            }
        }
    }

    /// The children of `parent` (of the root set for `None`), as a fresh
    /// vector. A stale parent has no list and yields nothing.
    pub fn children(&self, parent: &Option<Index>) -> (r: Vec<Index>)
        requires
            self.wf(),
        ensures
            r@ == (if self.valid_parent(*parent) {
                self.child_seq(*parent)
            } else {
                Seq::<Index>::empty()
            }),
    {
        match parent {
            None => copy_indices(&self.root_children),
            Some(p) => {
                if self.contains(*p) {
                    copy_indices(&self.children[p.slot])
                } else {
                    Vec::new()
                }
            },
        }
    }

    /// Allocates `node`, attaches it under `parent` (to the root set for
    /// `None`), and returns its index. The index is fresh: it did not
    /// resolve before the call. Every other node, its parent, and every
    /// other children list are untouched.
    pub fn insert(&mut self, parent: Option<Index>, node: Node) -> (r: Index)
        requires
            old(self).wf(),
            old(self).valid_parent(parent),
        ensures
            final(self).wf(),
            !old(self).live(r),
            final(self).live(r),
            final(self).node_of(r) == node,
            final(self).parent_of(r) == parent,
            final(self).valid_parent(parent),
            final(self).child_seq(parent) == old(self).child_seq(parent).push(r),
            final(self).child_seq(Some(r)) == Seq::<Index>::empty(),
            forall|j: Index| j != r ==> final(self).live(j) == old(self).live(j),
            forall|j: Index|
                old(self).live(j) ==> final(self).node_of(j) == old(self).node_of(j)
                    && final(self).parent_of(j) == old(self).parent_of(j),
            forall|q: Option<Index>|
                old(self).valid_parent(q) && q != parent ==> final(self).child_seq(q)
                    == old(self).child_seq(q),
            // Allocation never moves a generation counter: the fresh index
            // carries its slot's current generation, so after a strict
            // bump by a removal it can never equal the removed index.
            final(self).slot_count() >= old(self).slot_count(),
            r.slot < final(self).slot_count(),
            r.generation == final(self).slot_generation(r.slot as int),
            r.generation < u64::MAX,
            r.slot < old(self).slot_count() ==> r.generation == old(self).slot_generation(
                r.slot as int,
            ),
            forall|s: int|
                0 <= s < old(self).slot_count() ==> final(self).slot_generation(s) == old(
                    self,
                ).slot_generation(s),
    {
        let slot: usize = match self.find_vacant_slot() {
            Some(s) => {
                let generation = self.slots[s].generation;
                self.slots[s] = Slot { generation, node: Some(node) };
                s
            },
            None => {
                let s = self.slots.len();
                self.slots.push(Slot { generation: 0, node: Some(node) });
                self.parents.push(ParentEntry::Vacant);
                self.children.push(Vec::new());
                s
            },
        };
        let index = Index { slot, generation: self.slots[slot].generation };
        match parent {
            None => {
                self.parents[slot] = ParentEntry::Root;
                self.root_children.push(index);
            },
            Some(p) => {
                self.parents[slot] = ParentEntry::Child(p);
                self.children[p.slot].push(index);
            },
        }
        proof {
            let pre = *old(self);
            let post = *self;
            assert forall|c: Index|
                post.live(c) && post.parents@[c.slot as int] is Root implies post.root_children@
                .contains(c) by {
                if c == index {
                    if parent is None {
                        assert(post.root_children@.last() == index);
                    }
                } else {
                    assert(c.slot != slot as int) by {
                        if c.slot == slot {
                            assert(c.generation == post.slots@[slot as int].generation);
                        }
                    }
                    assert(pre.live(c));
                    assert(pre.root_children@.contains(c));
                    let k = choose|k: int|
                        0 <= k < pre.root_children@.len() && pre.root_children@[k] == c;
                    assert(post.root_children@[k] == c);
                }
            }
            assert forall|c: Index, p: Index|
                #![trigger post.live(c), post.live(p)]
                post.live(c) && post.parents@[c.slot as int] == ParentEntry::Child(p) && post.live(
                    p,
                ) implies post.children@[p.slot as int]@.contains(c) by {
                if c == index {
                    match parent {
                        Some(q) => {
                            assert(p == q);
                            assert(post.children@[p.slot as int]@.last() == index);
                        },
                        None => {},
                    }
                } else {
                    assert(c.slot != slot as int) by {
                        if c.slot == slot {
                            assert(c.generation == post.slots@[slot as int].generation);
                        }
                    }
                    assert(pre.live(c));
                    assert(p != index) by {
                        if p == index {
                            assert(p.slot == slot && p.generation == post.slots@[slot
                                as int].generation);
                        }
                    }
                    assert(pre.live(p)) by {
                        if p.slot == slot {
                            assert(p.generation <= pre.slots@[slot as int].generation);
                        }
                    }
                    assert(pre.children@[p.slot as int]@.contains(c));
                    let k = choose|k: int|
                        0 <= k < pre.children@[p.slot as int]@.len() && pre.children@[p.slot
                            as int]@[k] == c;
                    assert(post.children@[p.slot as int]@[k] == c);
                }
            }
            assert forall|c: Index| post.live(c) implies match post.parents@[c.slot as int] {
                ParentEntry::Child(p) => {
                    &&& p.slot < post.slots@.len()
                    &&& p.generation <= post.slots@[p.slot as int].generation
                    &&& (p.generation == post.slots@[p.slot as int].generation
                        && post.slots@[p.slot as int].node is None ==> p.generation == u64::MAX)
                },
                _ => true,
            } by {
                if c != index {
                    assert(c.slot != slot as int) by {
                        if c.slot == slot {
                            assert(c.generation == post.slots@[slot as int].generation);
                        }
                    }
                    assert(pre.live(c));
                }
            }
        }
        index
    }

    /// Whether `other` keeps this arena's structure: the same slots, the
    /// same live indices, parents, children lists, and generations — only
    /// stored node values may differ.
    pub open spec fn structure_unchanged(self, other: HierarchicalArena) -> bool {
        &&& other.slot_count() == self.slot_count()
        &&& (forall|j: Index| other.live(j) == self.live(j))
        &&& (forall|j: Index| self.live(j) ==> other.parent_of(j) == self.parent_of(j))
        &&& (forall|q: Option<Index>|
            self.valid_parent(q) ==> other.child_seq(q) == self.child_seq(q))
        &&& (forall|s: int|
            0 <= s < self.slot_count() ==> other.slot_generation(s) == self.slot_generation(s))
    }

    /// Replacing one stored node value, leaving its slot's generation and
    /// both adjacency maps alone, preserves well-formedness and the whole
    /// structure.
    proof fn lemma_wf_after_node_update(pre: HierarchicalArena, post: HierarchicalArena, slot: int)
        requires
            pre.wf(),
            0 <= slot < pre.slots@.len(),
            pre.slots@[slot].node is Some,
            post.slots@.len() == pre.slots@.len(),
            forall|s: int| 0 <= s < pre.slots@.len() && s != slot ==> post.slots@[s] == pre.slots@[s],
            post.slots@[slot].generation == pre.slots@[slot].generation,
            post.slots@[slot].node is Some,
            post.parents == pre.parents,
            post.children == pre.children,
            post.root_children == pre.root_children,
        ensures
            post.wf(),
            pre.structure_unchanged(post),
    {
        assert forall|j: Index| post.live(j) == pre.live(j) by {
            if j.slot as int == slot {
                assert(post.slots@[j.slot as int].generation == pre.slots@[j.slot
                    as int].generation);
            }
        }
        assert forall|k: int| 0 <= k < post.root_children@.len() implies post.live(
            #[trigger] post.root_children@[k],
        ) by {
            assert(pre.live(pre.root_children@[k]));
        }
        assert forall|s: int, k: int|
            0 <= s < post.children@.len() && 0 <= k < post.children@[s]@.len() implies post.live(
            #[trigger] post.children@[s]@[k],
        ) by {
            assert(pre.live(pre.children@[s]@[k]));
        }
        assert forall|c: Index|
            #[trigger] post.live(c) && post.parents@[c.slot as int] is Root
            implies post.root_children@.contains(c) by {
            assert(pre.live(c));
        }
        assert forall|c: Index, p: Index|
            #![trigger post.live(c), post.live(p)]
            post.live(c) && post.parents@[c.slot as int] == ParentEntry::Child(p) && post.live(p)
            implies post.children@[p.slot as int]@.contains(c) by {
            assert(pre.live(c) && pre.live(p));
        }
        assert forall|c: Index| post.live(c) implies match post.parents@[c.slot as int] {
            ParentEntry::Child(p) => {
                &&& p.slot < post.slots@.len()
                &&& p.generation <= post.slots@[p.slot as int].generation
                &&& (p.generation == post.slots@[p.slot as int].generation && post.slots@[p.slot
                    as int].node is None ==> p.generation == u64::MAX)
            },
            _ => true,
        } by {
            assert(pre.live(c));
        }
        assert forall|q: Option<Index>| pre.valid_parent(q) implies post.child_seq(q)
            == pre.child_seq(q) by {}
    }

    /// Structural preservation chains across successive operations.
    pub proof fn lemma_structure_unchanged_trans(
        a: HierarchicalArena,
        b: HierarchicalArena,
        c: HierarchicalArena,
    )
        requires
            a.structure_unchanged(b),
            b.structure_unchanged(c),
        ensures
            a.structure_unchanged(c),
    {
        assert forall|j: Index| c.live(j) == a.live(j) by {
            assert(b.live(j) == a.live(j));
            assert(c.live(j) == b.live(j));
        }
        assert forall|j: Index| a.live(j) implies c.parent_of(j) == a.parent_of(j) by {
            assert(b.live(j) == a.live(j));
        }
        assert forall|q: Option<Index>| a.valid_parent(q) implies c.child_seq(q) == a.child_seq(
            q,
        ) by {
            assert(b.valid_parent(q) == a.valid_parent(q)) by {
                match q {
                    Some(p) => {
                        assert(b.live(p) == a.live(p));
                    },
                    None => {},
                }
            }
        }
    }

    /// Replaces the style sheet of the node behind `index`. Returns whether
    /// the index resolved; a stale index changes nothing.
    pub fn set_style_sheet(&mut self, index: Index, sheet: StyleSheet) -> (r: bool)
        requires
            old(self).wf(),
        ensures
            final(self).wf(),
            old(self).structure_unchanged(*final(self)),
            r == old(self).live(index),
            !r ==> *final(self) == *old(self),
            r ==> final(self).node_of(index) == (Node {
                style_sheet: sheet,
                ..old(self).node_of(index)
            }),
            forall|j: Index|
                old(self).live(j) && j != index ==> final(self).node_of(j) == old(self).node_of(j),
    {
        if !self.contains(index) {
            return false;
        }
        match &mut self.slots[index.slot].node {
            Some(node) => {
                node.style_sheet = sheet;
            },
            None => {},
        }
        proof {
            HierarchicalArena::lemma_wf_after_node_update(*old(self), *self, index.slot as int);
        }
        true
    }

    /// Stores the layout the current pass computed for the node behind
    /// `index`. Returns whether the index resolved.
    pub fn set_last_layout(&mut self, index: Index, layout: Layout) -> (r: bool)
        requires
            old(self).wf(),
        ensures
            final(self).wf(),
            old(self).structure_unchanged(*final(self)),
            r == old(self).live(index),
            !r ==> *final(self) == *old(self),
            r ==> final(self).node_of(index) == (Node {
                last_layout: Some(layout),
                ..old(self).node_of(index)
            }),
            forall|j: Index|
                old(self).live(j) && j != index ==> final(self).node_of(j) == old(self).node_of(j),
    {
        if !self.contains(index) {
            return false;
        }
        match &mut self.slots[index.slot].node {
            Some(node) => {
                node.last_layout = Some(layout);
            },
            None => {},
        }
        proof {
            HierarchicalArena::lemma_wf_after_node_update(*old(self), *self, index.slot as int);
        }
        true
    }

    /// Records that the node's initialize hook has run.
    pub fn mark_initialized(&mut self, index: Index) -> (r: bool)
        requires
            old(self).wf(),
        ensures
            final(self).wf(),
            old(self).structure_unchanged(*final(self)),
            r == old(self).live(index),
            !r ==> *final(self) == *old(self),
            r ==> final(self).node_of(index) == (Node {
                initialized: true,
                ..old(self).node_of(index)
            }),
            forall|j: Index|
                old(self).live(j) && j != index ==> final(self).node_of(j) == old(self).node_of(j),
    {
        if !self.contains(index) {
            return false;
        }
        match &mut self.slots[index.slot].node {
            Some(node) => {
                node.initialized = true;
            },
            None => {},
        }
        proof {
            HierarchicalArena::lemma_wf_after_node_update(*old(self), *self, index.slot as int);
        }
        true
    }

    /// Runs the update hook of the component behind `index` for one frame
    /// tick. Returns whether the index resolved.
    pub fn update_node(&mut self, index: Index) -> (r: bool)
        requires
            old(self).wf(),
        ensures
            final(self).wf(),
            old(self).structure_unchanged(*final(self)),
            r == old(self).live(index),
            !r ==> *final(self) == *old(self),
            r ==> final(self).node_of(index) == (Node {
                component: old(self).node_of(index).component.spec_after_update(),
                ..old(self).node_of(index)
            }),
            forall|j: Index|
                old(self).live(j) && j != index ==> final(self).node_of(j) == old(self).node_of(j),
    {
        if !self.contains(index) {
            return false;
        }
        match &mut self.slots[index.slot].node {
            Some(node) => {
                node.component.run_update();
            },
            None => {},
        }
        proof {
            HierarchicalArena::lemma_wf_after_node_update(*old(self), *self, index.slot as int);
        }
        true
    }

    /// Hands a message to the component behind `index`, as a callback
    /// does. A stale index is a lookup failure and changes nothing.
    pub fn deliver_message(&mut self, index: Index, message: Message) -> (r: KludgineResult<()>)
        requires
            old(self).wf(),
        ensures
            final(self).wf(),
            old(self).structure_unchanged(*final(self)),
            forall|j: Index|
                old(self).live(j) && j != index ==> final(self).node_of(j) == old(self).node_of(j),
            !old(self).live(index) ==> r == KludgineResult::<()>::Err(KludgineError::LookupFailed)
                && *final(self) == *old(self),
            old(self).live(index) ==> {
                &&& r == old(self).node_of(index).component.spec_message_result(message)
                &&& final(self).node_of(index) == (Node {
                    component: final(self).node_of(index).component,
                    ..old(self).node_of(index)
                })
                &&& match old(self).node_of(index).component {
                    Component::Panel(panel) => final(self).node_of(index).component matches
                        Component::Panel(p) && p.received@ == panel.received@.push(message),
                    _ => final(self).node_of(index).component == old(self).node_of(
                        index,
                    ).component,
                }
            },
    {
        if !self.contains(index) {
            return Err(KludgineError::LookupFailed);
        }
        let r = match &mut self.slots[index.slot].node {
            Some(node) => node.component.receive_message(message),
            None => Err(KludgineError::LookupFailed),
        };
        proof {
            HierarchicalArena::lemma_wf_after_node_update(*old(self), *self, index.slot as int);
        }
        r
    }

    /// Hands a command to the component behind `index`. A stale index is a
    /// lookup failure and changes nothing.
    pub fn deliver_command(&mut self, index: Index, command: Command) -> (r: KludgineResult<()>)
        requires
            old(self).wf(),
        ensures
            final(self).wf(),
            old(self).structure_unchanged(*final(self)),
            forall|j: Index|
                old(self).live(j) && j != index ==> final(self).node_of(j) == old(self).node_of(j),
            !old(self).live(index) ==> r == KludgineResult::<()>::Err(KludgineError::LookupFailed)
                && *final(self) == *old(self),
            old(self).live(index) ==> {
                &&& r == old(self).node_of(index).component.spec_command_result(command)
                &&& final(self).node_of(index) == (Node {
                    component: old(self).node_of(index).component.spec_after_command(command),
                    ..old(self).node_of(index)
                })
            },
    {
        if !self.contains(index) {
            return Err(KludgineError::LookupFailed);
        }
        let r = match &mut self.slots[index.slot].node {
            Some(node) => node.component.receive_command(command),
            None => Err(KludgineError::LookupFailed),
        };
        proof {
            HierarchicalArena::lemma_wf_after_node_update(*old(self), *self, index.slot as int);
        }
        r
    }

    /// Moves `child` under a new parent (under the root set for `None`).
    /// The old parent's children list lets go of the child, then the new
    /// list takes it; no other node, list, or stored node value changes.
    pub fn set_parent(&mut self, child: Index, parent: Option<Index>)
        requires
            old(self).wf(),
            old(self).live(child),
            old(self).valid_parent(parent),
        ensures
            final(self).wf(),
            final(self).parent_of(child) == parent,
            forall|j: Index| final(self).live(j) == old(self).live(j),
            forall|j: Index| old(self).live(j) ==> final(self).node_of(j) == old(self).node_of(j),
            forall|j: Index|
                old(self).live(j) && j != child ==> final(self).parent_of(j) == old(
                    self,
                ).parent_of(j),
            forall|s: int|
                0 <= s < old(self).slot_count() ==> final(self).slot_generation(s) == old(
                    self,
                ).slot_generation(s),
            final(self).slot_count() == old(self).slot_count(),
    {
        self.detach(child);
        match parent {
            None => {
                self.parents[child.slot] = ParentEntry::Root;
                self.root_children.push(child);
            },
            Some(p) => {
                self.parents[child.slot] = ParentEntry::Child(p);
                self.children[p.slot].push(child);
            },
        }
        proof {
            let pre = *old(self);
            let post = *self;
            assert forall|c: Index|
                post.live(c) && post.parents@[c.slot as int] is Root implies post.root_children@
                .contains(c) by {
                if c == child {
                    if parent is None {
                        assert(post.root_children@.last() == child);
                        assert(post.root_children@.contains(child));
                    }
                } else {
                    assert(c.slot != child.slot) by {
                        if c.slot == child.slot {
                            assert(c.generation == post.slots@[c.slot as int].generation);
                            assert(child.generation == post.slots@[c.slot as int].generation);
                        }
                    }
                    assert(pre.live(c) && pre.parents@[c.slot as int] is Root);
                    assert(pre.root_children@.contains(c));
                }
            }
            assert forall|c: Index, p: Index|
                #![trigger post.live(c), post.live(p)]
                post.live(c) && post.parents@[c.slot as int] == ParentEntry::Child(p) && post.live(
                    p,
                ) implies post.children@[p.slot as int]@.contains(c) by {
                if c == child {
                    match parent {
                        Some(q) => {
                            assert(p == q);
                            assert(post.children@[p.slot as int]@.last() == child);
                            assert(post.children@[p.slot as int]@.contains(child));
                        },
                        None => {},
                    }
                } else {
                    assert(c.slot != child.slot) by {
                        if c.slot == child.slot {
                            assert(c.generation == post.slots@[c.slot as int].generation);
                            assert(child.generation == post.slots@[c.slot as int].generation);
                        }
                    }
                    assert(pre.live(c) && pre.parents@[c.slot as int] == ParentEntry::Child(p));
                    assert(pre.live(p));
                    assert(pre.children@[p.slot as int]@.contains(c));
                }
            }
            assert forall|k: int| 0 <= k < post.root_children@.len() implies post.live(
                #[trigger] post.root_children@[k],
            ) && post.parents@[post.root_children@[k].slot as int] is Root by {
                let x = post.root_children@[k];
                if x != child {
                    assert(post.root_children@.contains(x));
                    assert(pre.root_children@.contains(x));
                    let k2 = choose|k2: int|
                        0 <= k2 < pre.root_children@.len() && pre.root_children@[k2] == x;
                    assert(pre.live(pre.root_children@[k2]));
                    assert(x.slot != child.slot) by {
                        if x.slot == child.slot {
                            assert(x.generation == pre.slots@[x.slot as int].generation);
                            assert(child.generation == pre.slots@[x.slot as int].generation);
                        }
                    }
                }
            }
            assert forall|s: int, k: int|
                0 <= s < post.children@.len() && 0 <= k < post.children@[s]@.len() implies {
                    let c = #[trigger] post.children@[s]@[k];
                    &&& post.live(c)
                    &&& post.slots@[s].node is Some
                    &&& match post.parents@[c.slot as int] {
                        ParentEntry::Child(p) => p.slot as int == s && p.generation
                            == post.slots@[s].generation,
                        _ => false,
                    }
                } by {
                let c = post.children@[s]@[k];
                assert(post.children@[s]@.contains(c));
                if c == child {
                    match parent {
                        Some(q) => {
                            if q.slot as int != s {
                                assert(pre.children@[s]@.contains(child));
                                let k2 = choose|k2: int|
                                    0 <= k2 < pre.children@[s]@.len() && pre.children@[s]@[k2]
                                        == child;
                                assert(pre.live(pre.children@[s]@[k2]));
                                assert(false);
                            }
                        },
                        None => {
                            assert(pre.children@[s]@.contains(child));
                            let k2 = choose|k2: int|
                                0 <= k2 < pre.children@[s]@.len() && pre.children@[s]@[k2]
                                    == child;
                            assert(pre.live(pre.children@[s]@[k2]));
                            assert(false);
                        },
                    }
                } else {
                    assert(pre.children@[s]@.contains(c));
                    let k2 = choose|k2: int|
                        0 <= k2 < pre.children@[s]@.len() && pre.children@[s]@[k2] == c;
                    assert(pre.children@[s]@[k2] == c);
                    assert(pre.live(c));
                    assert(c.slot != child.slot) by {
                        if c.slot == child.slot {
                            assert(c.generation == pre.slots@[c.slot as int].generation);
                            assert(child.generation == pre.slots@[c.slot as int].generation);
                        }
                    }
                }
            }
            assert forall|c: Index| post.live(c) implies match post.parents@[c.slot as int] {
                ParentEntry::Child(p) => {
                    &&& p.slot < post.slots@.len()
                    &&& p.generation <= post.slots@[p.slot as int].generation
                    &&& (p.generation == post.slots@[p.slot as int].generation
                        && post.slots@[p.slot as int].node is None ==> p.generation == u64::MAX)
                },
                _ => true,
            } by {
                if c != child {
                    assert(c.slot != child.slot) by {
                        if c.slot == child.slot {
                            assert(c.generation == pre.slots@[c.slot as int].generation);
                            assert(child.generation == pre.slots@[c.slot as int].generation);
                        }
                    }
                    assert(pre.live(c));
                }
            }
        }
    }

    /// Removes the node behind `index`: detaches it from its parent's list,
    /// drops it, and bumps the slot's generation so the index goes stale.
    /// The removed node's own children stay resident but become detached —
    /// unreachable from the root traversal until explicitly reaped.
    /// Removing an index that no longer resolves changes nothing.
    pub fn remove(&mut self, index: Index) -> (r: Option<Node>)
        requires
            old(self).wf(),
        ensures
            final(self).wf(),
            old(self).live(index) ==> {
                &&& r matches Some(node) && node == old(self).node_of(index)
                &&& !final(self).live(index)
                // The slot's generation bumps strictly, so the removed
                // index stays stale however the slot is reused; a slot
                // whose counter is exhausted is retired instead.
                &&& final(self).slot_generation(index.slot as int) as int == (
                if index.generation < u64::MAX {
                    index.generation + 1
                } else {
                    u64::MAX as int
                })
            },
            !old(self).live(index) ==> r is None && *final(self) == *old(self),
            forall|j: Index| j != index ==> final(self).live(j) == old(self).live(j),
            forall|j: Index|
                old(self).live(j) && j != index ==> final(self).node_of(j) == old(self).node_of(j)
                    && final(self).parent_of(j) == old(self).parent_of(j),
            final(self).slot_count() == old(self).slot_count(),
            forall|s: int|
                0 <= s < old(self).slot_count() && s != index.slot
                    ==> final(self).slot_generation(s) == old(self).slot_generation(s),
    {
        if !self.contains(index) {
            return None;
        }
        self.detach(index);
        self.children[index.slot].clear();
        let generation = self.slots[index.slot].generation;
        let bumped: u64 = if generation < u64::MAX {
            generation + 1
        } else {
            generation
        };
        let mut taken = Slot { generation: bumped, node: None };
        core::mem::swap(&mut self.slots[index.slot], &mut taken);
        self.parents[index.slot] = ParentEntry::Vacant;
        proof {
            let pre = *old(self);
            let post = *self;
            assert forall|j: Index| j != index implies post.live(j) == pre.live(j) by {
                if j.slot == index.slot {
                    if pre.live(j) {
                        assert(j == index);
                    }
                    assert(!post.live(j));
                }
            }
            assert forall|c: Index|
                post.live(c) && post.parents@[c.slot as int] is Root implies post.root_children@
                .contains(c) by {
                assert(pre.live(c) && c != index);
                assert(pre.root_children@.contains(c));
            }
            assert forall|c: Index, p: Index|
                #![trigger post.live(c), post.live(p)]
                post.live(c) && post.parents@[c.slot as int] == ParentEntry::Child(p) && post.live(
                    p,
                ) implies post.children@[p.slot as int]@.contains(c) by {
                assert(pre.live(c) && c != index);
                assert(pre.live(p) && p != index);
                assert(p.slot != index.slot);
                assert(pre.children@[p.slot as int]@.contains(c));
            }
            assert forall|c: Index| post.live(c) implies match post.parents@[c.slot as int] {
                ParentEntry::Child(p) => {
                    &&& p.slot < post.slots@.len()
                    &&& p.generation <= post.slots@[p.slot as int].generation
                    &&& (p.generation == post.slots@[p.slot as int].generation
                        && post.slots@[p.slot as int].node is None ==> p.generation == u64::MAX)
                },
                _ => true,
            } by {
                assert(pre.live(c) && c != index);
            }
            assert forall|k: int| 0 <= k < post.root_children@.len() implies post.live(
                #[trigger] post.root_children@[k],
            ) && post.parents@[post.root_children@[k].slot as int] is Root by {
                let x = post.root_children@[k];
                assert(post.root_children@.contains(x));
                assert(x != index);
                assert(pre.root_children@.contains(x));
                let k2 = choose|k2: int|
                    0 <= k2 < pre.root_children@.len() && pre.root_children@[k2] == x;
                assert(pre.live(pre.root_children@[k2]));
                assert(x.slot != index.slot) by {
                    if x.slot == index.slot {
                        assert(x.generation == pre.slots@[x.slot as int].generation);
                        assert(index.generation == pre.slots@[x.slot as int].generation);
                    }
                }
            }
            assert forall|s: int, k: int|
                0 <= s < post.children@.len() && 0 <= k < post.children@[s]@.len() implies {
                    let c = #[trigger] post.children@[s]@[k];
                    &&& post.live(c)
                    &&& post.slots@[s].node is Some
                    &&& match post.parents@[c.slot as int] {
                        ParentEntry::Child(p) => p.slot as int == s && p.generation
                            == post.slots@[s].generation,
                        _ => false,
                    }
                } by {
                let c = post.children@[s]@[k];
                assert(post.children@[s]@.contains(c));
                assert(s != index.slot as int);
                assert(c != index);
                assert(pre.children@[s]@.contains(c));
                let k2 = choose|k2: int|
                    0 <= k2 < pre.children@[s]@.len() && pre.children@[s]@[k2] == c;
                assert(pre.children@[s]@[k2] == c);
                assert(pre.live(c));
                assert(c.slot != index.slot) by {
                    if c.slot == index.slot {
                        assert(c.generation == pre.slots@[c.slot as int].generation);
                        assert(index.generation == pre.slots@[c.slot as int].generation);
                    }
                }
            }
        }
        taken.node
    }

    /// Takes `child` out of whichever children list its parent entry
    /// names, leaving the entry itself and all node storage untouched.
    fn detach(&mut self, child: Index)
        requires
            old(self).wf(),
            old(self).live(child),
        ensures
            final(self).slots == old(self).slots,
            final(self).parents == old(self).parents,
            final(self).children@.len() == old(self).children@.len(),
            final(self).root_children@.len() <= old(self).root_children@.len(),
            forall|s: int|
                0 <= s < old(self).children@.len() ==> (#[trigger] final(self).children@[s]@).len()
                    <= old(self).children@[s]@.len(),
            seq_distinct(final(self).root_children@),
            !final(self).root_children@.contains(child),
            forall|x: Index|
                x != child ==> (final(self).root_children@.contains(x) <==> old(
                    self,
                ).root_children@.contains(x)),
            forall|x: Index|
                final(self).root_children@.contains(x) ==> old(self).root_children@.contains(x),
            forall|s: int|
                0 <= s < old(self).children@.len() ==> {
                    &&& seq_distinct(#[trigger] final(self).children@[s]@)
                    &&& !final(self).children@[s]@.contains(child)
                    &&& (forall|x: Index|
                        x != child ==> (final(self).children@[s]@.contains(x) <==> old(
                            self,
                        ).children@[s]@.contains(x)))
                    &&& (forall|x: Index|
                        final(self).children@[s]@.contains(x) ==> old(self).children@[s]@.contains(
                            x,
                        ))
                },
    {
        let entry = self.parents[child.slot];
        match entry {
            ParentEntry::Root => {
                remove_index_from(&mut self.root_children, child);
            },
            ParentEntry::Child(p) => {
                if self.contains(p) {
                    remove_index_from(&mut self.children[p.slot], child);
                }
            },
            ParentEntry::Vacant => {
                proof {
                    assert(false);
                }
            },
        }
        proof {
            let pre = *old(self);
            let post = *self;
            // The only list that could hold the child is the one its entry
            // names; every other list did not change and never held it.
            assert forall|s: int| 0 <= s < pre.children@.len() implies !post.children@[s]@.contains(
                child,
            ) && seq_distinct(post.children@[s]@) by {
                match pre.parents@[child.slot as int] {
                    ParentEntry::Child(p) => {
                        if pre.live(p) && p.slot == s {
                        } else {
                            assert(post.children@[s]@ == pre.children@[s]@);
                            if pre.children@[s]@.contains(child) {
                                let k = choose|k: int|
                                    0 <= k < pre.children@[s]@.len() && pre.children@[s]@[k]
                                        == child;
                                assert(pre.children@[s]@[k] == child);
                                assert(pre.live(pre.children@[s]@[k]));
                                assert(p.slot as int == s && p.generation
                                    == pre.slots@[s].generation);
                                assert(pre.live(p));
                                assert(false);
                            }
                        }
                    },
                    _ => {
                        assert(post.children@[s]@ == pre.children@[s]@);
                        if pre.children@[s]@.contains(child) {
                            let k = choose|k: int|
                                0 <= k < pre.children@[s]@.len() && pre.children@[s]@[k] == child;
                            assert(pre.children@[s]@[k] == child);
                            assert(pre.live(pre.children@[s]@[k]));
                            assert(false);
                        }
                    },
                }
            }
            if post.root_children@.contains(child) {
                assert(pre.root_children@.contains(child));
                let k = choose|k: int|
                    0 <= k < pre.root_children@.len() && pre.root_children@[k] == child;
                assert(pre.live(pre.root_children@[k]));
                assert(pre.parents@[child.slot as int] is Root);
                assert(false);
            }
        }
    }

    /// Whether `i` can be reached from the root set in at most `n` steps
    /// down the children-of map.
    pub open spec fn reachable_in(self, i: Index, n: nat) -> bool
        decreases n,
    {
        if n == 0 {
            self.child_seq(None).contains(i)
        } else {
            self.reachable_in(i, (n - 1) as nat) || (exists|p: Index|
                self.reachable_in(p, (n - 1) as nat) && self.live(p) && self.child_seq(
                    Some(p),
                ).contains(i))
        }
    }

    /// Whether `i` can be reached from the root set at all.
    pub open spec fn reachable(self, i: Index) -> bool {
        exists|n: nat| self.reachable_in(i, n)
    }

    /// What a breadth-first order over the live tree satisfies: every
    /// reachable node listed exactly once, every entry live, and no child
    /// before its parent. Sibling order within one children list is the
    /// list's own and is not constrained here.
    pub open spec fn spec_bfs_order(self, order: Seq<Index>) -> bool {
        &&& seq_distinct(order)
        &&& (forall|x: Index| order.contains(x) <==> self.reachable(x))
        &&& (forall|m: int| 0 <= m < order.len() ==> self.live(#[trigger] order[m]))
        &&& (forall|m: int|
            0 <= m < order.len() ==> match self.parent_of(#[trigger] order[m]) {
                Some(p) => exists|k: int| 0 <= k < m && order[k] == p,
                None => true,
            })
    }

    /// A reachable node's child is reachable.
    proof fn lemma_reachable_step(self, p: Index, c: Index)
        requires
            self.reachable(p),
            self.live(p),
            self.child_seq(Some(p)).contains(c),
        ensures
            self.reachable(c),
    {
        let n = choose|n: nat| self.reachable_in(p, n);
        assert(self.reachable_in(c, n + 1));
    }

    /// Any set of indices that holds the root set and is closed under the
    /// children-of map holds every reachable index.
    proof fn lemma_reachable_closed(self, done: Seq<Index>, x: Index, n: nat)
        requires
            self.reachable_in(x, n),
            forall|y: Index| self.child_seq(None).contains(y) ==> done.contains(y),
            forall|p: Index, c: Index|
                #![trigger done.contains(p), self.child_seq(Some(p)).contains(c)]
                done.contains(p) && self.live(p) && self.child_seq(Some(p)).contains(c)
                    ==> done.contains(c),
        ensures
            done.contains(x),
        decreases n,
    {
        if n > 0 {
            if self.reachable_in(x, (n - 1) as nat) {
                self.lemma_reachable_closed(done, x, (n - 1) as nat);
            } else {
                let p = choose|p: Index|
                    self.reachable_in(p, (n - 1) as nat) && self.live(p) && self.child_seq(
                        Some(p),
                    ).contains(x);
                self.lemma_reachable_closed(done, p, (n - 1) as nat);
            }
        }
    }

    /// Pairwise-distinct live indices occupy pairwise-distinct slots, so
    /// there can be no more of them than there are slots.
    proof fn lemma_distinct_live_bounded(self, s: Seq<Index>)
        requires
            seq_distinct(s),
            forall|k: int| 0 <= k < s.len() ==> self.live(#[trigger] s[k]),
        ensures
            s.len() <= self.slot_count(),
    {
        let slots = s.map_values(|i: Index| i.slot as int);
        assert(slots.no_duplicates()) by {
            assert forall|a: int, b: int| 0 <= a < b < slots.len() implies slots[a] != slots[b] by {
                if s[a].slot == s[b].slot {
                    assert(s[a].generation == self.slots@[s[a].slot as int].generation);
                    assert(s[b].generation == self.slots@[s[a].slot as int].generation);
                }
            }
        }
        slots.unique_seq_to_set();
        assert(slots.to_set().subset_of(vstd::set_lib::set_int_range(0, self.slot_count() as int)))
            by {
            assert forall|x: int| slots.to_set().contains(x) implies 0 <= x < self.slot_count() by {
                let k = choose|k: int| 0 <= k < slots.len() && slots[k] == x;
                assert(self.live(s[k]));
            }
        }
        vstd::set_lib::lemma_int_range(0, self.slot_count() as int);
        vstd::set_lib::lemma_len_subset(
            slots.to_set(),
            vstd::set_lib::set_int_range(0, self.slot_count() as int),
        );
    }

    /// The live tree in breadth-first order, the root set first. Every
    /// reachable node appears exactly once, never before its parent; no
    /// index is ever visited twice. On a well-formed arena the cycle
    /// guard can never fire, so the traversal always succeeds.
    pub fn bfs_order(&self) -> (r: KludgineResult<Vec<Index>>)
        requires
            self.wf(),
        ensures
            r matches Ok(order) && self.spec_bfs_order(order@),
    {
        let mut queue: Vec<Index> = copy_indices(&self.root_children);
        let mut order: Vec<Index> = Vec::new();
        proof {
            assert forall|x: Index| self.root_children@.contains(x) implies self.reachable(x) by {
                assert(self.reachable_in(x, 0));
            }
            self.lemma_distinct_live_bounded(order@);
        }
        while queue.len() > 0
            invariant
                self.wf(),
                forall|k: int| 0 <= k < queue@.len() ==> self.live(#[trigger] queue@[k]),
                forall|k: int| 0 <= k < order@.len() ==> self.live(#[trigger] order@[k]),
                seq_distinct(order@),
                seq_distinct(queue@),
                forall|x: Index| !(queue@.contains(x) && order@.contains(x)),
                forall|x: Index|
                    #![trigger queue@.contains(x)]
                    #![trigger order@.contains(x)]
                    (queue@.contains(x) || order@.contains(x)) ==> match self.parents@[x.slot as int] {
                        ParentEntry::Child(p) => order@.contains(p),
                        _ => true,
                    },
                forall|k: int, j: int|
                    0 <= k < order@.len() && 0 <= j < self.children@[order@[k].slot as int]@.len()
                        ==> {
                        let c = #[trigger] self.children@[order@[k].slot as int]@[j];
                        queue@.contains(c) || order@.contains(c)
                    },
                forall|x: Index|
                    self.root_children@.contains(x) ==> queue@.contains(x) || order@.contains(x),
                forall|x: Index|
                    #![trigger queue@.contains(x)]
                    #![trigger order@.contains(x)]
                    (queue@.contains(x) || order@.contains(x)) ==> self.reachable(x),
                forall|m: int|
                    0 <= m < order@.len() ==> match self.parent_of(#[trigger] order@[m]) {
                        Some(p) => exists|k: int| 0 <= k < m && order@[k] == p,
                        None => true,
                    },
                order@.len() <= self.slot_count(),
            decreases self.slot_count() - order@.len(), queue@.len(),
        {
            let ghost pre_queue = queue@;
            let ghost pre_order = order@;
            let i = queue[0];
            if contains_index(&order, i) {
                proof {
                    assert(queue@.contains(i));
                    assert(false);
                }
                return Err(KludgineError::CycleDetected);
            }
            queue.remove(0);
            order.push(i);
            proof {
                assert(queue@ == pre_queue.drop_first());
                assert forall|x: Index| queue@.contains(x) implies pre_queue.contains(x) && x
                    != i by {
                    let k = choose|k: int| 0 <= k < queue@.len() && queue@[k] == x;
                    assert(pre_queue[k + 1] == x);
                }
            }
            assert(i.slot < self.children.len());
            let mut kids: Vec<Index> = copy_indices(&self.children[i.slot]);
            queue.append(&mut kids);
            proof {
                let ghost mid_queue = pre_queue.drop_first();
                let ghost kid_seq = self.children@[i.slot as int]@;
                assert(queue@ == mid_queue + kid_seq);
                assert(order@ == pre_order.push(i));
                // Each child freshly enqueued names `i` as its parent, so it
                // was never in the frontier before and differs from `i`.
                assert forall|c: Index| kid_seq.contains(c) implies self.parents@[c.slot as int]
                    == ParentEntry::Child(i) && !pre_queue.contains(c) && !pre_order.contains(c)
                    && c != i by {
                    let k = choose|k: int| 0 <= k < kid_seq.len() && kid_seq[k] == c;
                    assert(self.children@[i.slot as int]@[k] == c);
                    match self.parents@[c.slot as int] {
                        ParentEntry::Child(p) => {
                            assert(p.slot == i.slot && p.generation == self.slots@[i.slot
                                as int].generation);
                            assert(self.live(i));
                            assert(p == i);
                        },
                        _ => {
                            assert(false);
                        },
                    }
                    assert(!pre_order.contains(i));
                    if pre_queue.contains(c) || pre_order.contains(c) {
                        assert(pre_order.contains(i));
                    }
                    if c == i {
                        assert(pre_queue.contains(i));
                        assert(pre_order.contains(i));
                    }
                }
                // Distinctness of the new queue.
                assert forall|a: int, b: int| 0 <= a < b < queue@.len() implies queue@[a]
                    != queue@[b] by {
                    if a < mid_queue.len() && b < mid_queue.len() {
                        assert(pre_queue[a + 1] == queue@[a] && pre_queue[b + 1] == queue@[b]);
                    } else if a < mid_queue.len() {
                        assert(mid_queue.contains(queue@[a]));
                        assert(kid_seq.contains(queue@[b])) by {
                            assert(queue@[b] == kid_seq[b - mid_queue.len()]);
                        }
                        assert(pre_queue.contains(queue@[a]));
                    } else {
                        assert(queue@[a] == kid_seq[a - mid_queue.len()]);
                        assert(queue@[b] == kid_seq[b - mid_queue.len()]);
                    }
                }
                // The frontier only grows as a set: everything that was in
                // it is still in it.
                assert forall|x: Index| pre_queue.contains(x) || pre_order.contains(x) implies
                    queue@.contains(x) || order@.contains(x) by {
                    if pre_order.contains(x) {
                        assert(order@.contains(x));
                    } else if x == i {
                        assert(order@.last() == i);
                        assert(order@.contains(i));
                    } else {
                        let k = choose|k: int| 0 <= k < pre_queue.len() && pre_queue[k] == x;
                        assert(k != 0);
                        assert(mid_queue[k - 1] == x);
                        assert(queue@[k - 1] == x);
                    }
                }
                // No overlap between the new queue and the new order.
                assert forall|x: Index| queue@.contains(x) implies !order@.contains(x) by {
                    if mid_queue.contains(x) {
                        assert(pre_queue.contains(x) && x != i);
                    } else {
                        assert(kid_seq.contains(x));
                    }
                }
                // Every child of a processed node is in the frontier.
                assert forall|k: int, j: int|
                    0 <= k < order@.len() && 0 <= j < self.children@[order@[k].slot as int]@.len()
                    implies {
                        let c = #[trigger] self.children@[order@[k].slot as int]@[j];
                        queue@.contains(c) || order@.contains(c)
                    } by {
                    let c = self.children@[order@[k].slot as int]@[j];
                    if k < pre_order.len() {
                        assert(pre_order[k] == order@[k]);
                        assert(pre_queue.contains(c) || pre_order.contains(c));
                    } else {
                        assert(order@[k] == i);
                        assert(kid_seq[j] == c);
                        assert(kid_seq.contains(c));
                        assert(queue@.contains(c)) by {
                            assert(queue@[mid_queue.len() + j] == c);
                        }
                    }
                }
                // Everything in the frontier is reachable.
                assert forall|x: Index| queue@.contains(x) || order@.contains(x) implies
                    self.reachable(x) by {
                    if pre_queue.contains(x) || pre_order.contains(x) {
                    } else if kid_seq.contains(x) {
                        assert(pre_queue.contains(i));
                        assert(self.reachable(i));
                        self.lemma_reachable_step(i, x);
                    } else {
                        if order@.contains(x) {
                            let k = choose|k: int| 0 <= k < order@.len() && order@[k] == x;
                            if k < pre_order.len() {
                                assert(pre_order.contains(x));
                            } else {
                                assert(x == i);
                                assert(pre_queue.contains(i));
                            }
                        } else {
                            let k = choose|k: int| 0 <= k < queue@.len() && queue@[k] == x;
                            if k < mid_queue.len() {
                                assert(pre_queue[k + 1] == x);
                            } else {
                                assert(kid_seq[k - mid_queue.len()] == x);
                            }
                        }
                    }
                }
                // No child enters the order before its parent: the new
                // entry's parent was already processed, and the old
                // entries keep their positions.
                assert forall|m: int| 0 <= m < order@.len() implies match self.parent_of(
                    #[trigger] order@[m],
                ) {
                    Some(p) => exists|k: int| 0 <= k < m && order@[k] == p,
                    None => true,
                } by {
                    if m < pre_order.len() {
                        assert(order@[m] == pre_order[m]);
                        match self.parent_of(pre_order[m]) {
                            Some(p) => {
                                let k = choose|k: int| 0 <= k < m && pre_order[k] == p;
                                assert(order@[k] == p);
                            },
                            None => {},
                        }
                    } else {
                        assert(order@[m] == i);
                        match self.parents@[i.slot as int] {
                            ParentEntry::Child(p) => {
                                assert(pre_queue.contains(i));
                                assert(pre_order.contains(p));
                                let k = choose|k: int|
                                    0 <= k < pre_order.len() && pre_order[k] == p;
                                assert(order@[k] == p);
                            },
                            _ => {},
                        }
                    }
                }
                self.lemma_distinct_live_bounded(order@);
            }
        }
        proof {
            assert forall|x: Index| self.reachable(x) implies order@.contains(x) by {
                let n = choose|n: nat| self.reachable_in(x, n);
                self.lemma_reachable_closed(order@, x, n);
            }
        }
        Ok(order)
    }

    /// The first vacant, reusable slot, if any.
    fn find_vacant_slot(&self) -> (r: Option<usize>)
        ensures
            match r {
                Some(s) => s < self.slots@.len() && self.slots@[s as int].node is None
                    && self.slots@[s as int].generation < u64::MAX,
                None => true,
            },
    {
        let mut s: usize = 0;
        while s < self.slots.len()
            invariant
                s <= self.slots@.len(),
            decreases self.slots@.len() - s,
        {
            if self.slots[s].node.is_none() && self.slots[s].generation < u64::MAX {
                return Some(s);
            }
            s = s + 1;
        }
        None
    }
}

/// A breadth-first walk over an adjacency snapshot.
///
/// The queue is seeded with the root set and the children tables are copied
/// when the walk starts, so nodes inserted or moved mid-pass are not seen:
/// the walk deterministically visits what was reachable at pass start. If
/// the same index comes up twice — possible only when the snapshot was
/// hand-built with an inconsistent children table — the walk stops with the
/// fatal cycle guard instead of looping.
pub struct ArenaIterator {
    queue: Vec<Index>,
    processed: Vec<Index>,
    children: Vec<Vec<Index>>,
}

impl ArenaIterator {
    /// The indices still waiting to be visited, front first.
    pub closed spec fn spec_queue(self) -> Seq<Index> {
        self.queue@
    }

    /// The indices already visited, in visit order.
    pub closed spec fn spec_processed(self) -> Seq<Index> {
        self.processed@
    }

    /// The snapshot's children table, by slot.
    pub closed spec fn spec_children(self) -> Seq<Seq<Index>> {
        self.children@.map_values(|v: Vec<Index>| v@)
    }

    /// The snapshot's children of `i`; a slot outside the table has none.
    pub open spec fn spec_children_of(self, i: Index) -> Seq<Index> {
        if i.slot < self.spec_children().len() {
            self.spec_children()[i.slot as int]
        } else {
            Seq::<Index>::empty()
        }
    }

    /// A walk over an explicit root set and children table.
    pub fn over(roots: Vec<Index>, children: Vec<Vec<Index>>) -> (r: ArenaIterator)
        ensures
            r.spec_queue() == roots@,
            r.spec_processed() == Seq::<Index>::empty(),
            r.spec_children() == children@.map_values(|v: Vec<Index>| v@),
    {
        ArenaIterator { queue: roots, processed: Vec::new(), children }
    }

    /// Visits the next index: pops the queue's front, records it, and
    /// enqueues its children. An index that was already visited trips the
    /// fatal cycle guard and changes nothing. An empty queue ends the walk.
    pub fn next(&mut self) -> (r: KludgineResult<Option<Index>>)
        ensures
            final(self).spec_children() == old(self).spec_children(),
            match r {
                Ok(item) => match item {
                    Some(i) => {
                        &&& old(self).spec_queue().len() > 0
                        &&& i == old(self).spec_queue()[0]
                        &&& !old(self).spec_processed().contains(i)
                        &&& final(self).spec_processed() == old(self).spec_processed().push(i)
                        &&& final(self).spec_queue() == old(self).spec_queue().drop_first()
                            + old(self).spec_children_of(i)
                    },
                    None => old(self).spec_queue().len() == 0 && *final(self) == *old(self),
                },
                Err(e) => {
                    &&& e == KludgineError::CycleDetected
                    &&& old(self).spec_queue().len() > 0
                    &&& old(self).spec_processed().contains(old(self).spec_queue()[0])
                    &&& *final(self) == *old(self)
                },
            },
            // The fatal guard, spelled as a law: the step fails exactly
            // when the front of the queue was already visited — the shape
            // only a hand-built cyclic children table can produce.
            r is Err <==> old(self).spec_queue().len() > 0 && old(self).spec_processed().contains(
                old(self).spec_queue()[0],
            ),
    {
        if self.queue.len() == 0 {
            return Ok(None);
        }
        let i = self.queue[0];
        if contains_index(&self.processed, i) {
            return Err(KludgineError::CycleDetected);
        }
        self.queue.remove(0);
        self.processed.push(i);
        if i.slot < self.children.len() {
            let mut kids = copy_indices(&self.children[i.slot]);
            self.queue.append(&mut kids);
            proof {
                assert(self.children@.map_values(|v: Vec<Index>| v@)[i.slot as int]
                    == self.children@[i.slot as int]@);
            }
        } else {
            proof {
                assert(self.queue@ =~= old(self).spec_queue().drop_first()
                    + old(self).spec_children_of(i));
            }
        }
        Ok(Some(i))
    }
}

impl HierarchicalArena {
    /// A breadth-first walk over the live tree, starting from the root
    /// set. The walk works on a snapshot taken here: mutations made while
    /// the walk is in flight are not observed by it.
    pub fn iter(&self) -> (r: ArenaIterator)
        requires
            self.wf(),
        ensures
            r.spec_queue() == self.child_seq(None),
            r.spec_processed() == Seq::<Index>::empty(),
            r.spec_children().len() == self.slot_count(),
            forall|p: Index| self.live(p) ==> r.spec_children_of(p) == self.child_seq(Some(p)),
    {
        let roots = copy_indices(&self.root_children);
        let mut table: Vec<Vec<Index>> = Vec::new();
        let mut s: usize = 0;
        while s < self.children.len()
            invariant
                s <= self.children@.len(),
                table@.len() == s,
                forall|t: int| 0 <= t < s ==> (#[trigger] table@[t])@ == self.children@[t]@,
            decreases self.children@.len() - s,
        {
            let list = copy_indices(&self.children[s]);
            table.push(list);
            s = s + 1;
        }
        let r = ArenaIterator::over(roots, table);
        proof {
            assert forall|p: Index| self.live(p) implies r.spec_children_of(p) == self.child_seq(
                Some(p),
            ) by {
                assert(r.spec_children()[p.slot as int] == table@[p.slot as int]@);
            }
        }
        r
    }
}

/// Copies a vector of indices.
fn copy_indices(source: &Vec<Index>) -> (r: Vec<Index>)
    ensures
        r@ == source@,
{
    let mut r: Vec<Index> = Vec::new();
    let mut i: usize = 0;
    while i < source.len()
        invariant
            i <= source@.len(),
            r@ == source@.subrange(0, i as int),
        decreases source@.len() - i,
    {
        r.push(source[i]);
        i = i + 1;
    }
    proof {
        assert(r@ =~= source@);
    }
    r
}

/// Whether a vector of indices holds `target`.
fn contains_index(list: &Vec<Index>, target: Index) -> (r: bool)
    ensures
        r == list@.contains(target),
{
    let mut i: usize = 0;
    while i < list.len()
        invariant
            i <= list@.len(),
            forall|j: int| 0 <= j < i ==> list@[j] != target,
        decreases list@.len() - i,
    {
        if list[i] == target {
            return true;
        }
        i = i + 1;
    }
    false
}

/// Removes `target` from a duplicate-free vector of indices, if present.
fn remove_index_from(list: &mut Vec<Index>, target: Index)
    requires
        seq_distinct(old(list)@),
    ensures
        seq_distinct(final(list)@),
        !final(list)@.contains(target),
        final(list)@.len() <= old(list)@.len(),
        forall|x: Index|
            x != target ==> (final(list)@.contains(x) <==> old(list)@.contains(x)),
        forall|x: Index| final(list)@.contains(x) ==> old(list)@.contains(x),
{
    let mut i: usize = 0;
    while i < list.len()
        invariant
            i <= list@.len(),
            *list == *old(list),
            seq_distinct(list@),
            forall|j: int| 0 <= j < i ==> list@[j] != target,
        decreases list@.len() - i,
    {
        if list[i] == target {
            let ghost pre = list@;
            let ghost k = i as int;
            list.remove(i);
            proof {
                assert(list@ == pre.remove(k));
                pre.remove_ensures(k);
                assert forall|x: Index| list@.contains(x) implies pre.contains(x) by {
                    let j = choose|j: int| 0 <= j < list@.len() && list@[j] == x;
                    if j < k {
                        assert(pre[j] == x);
                    } else {
                        assert(pre[j + 1] == x);
                    }
                }
                assert(!list@.contains(target)) by {
                    if list@.contains(target) {
                        let j = choose|j: int| 0 <= j < list@.len() && list@[j] == target;
                        if j < k {
                            assert(pre[j] == target && pre[k] == target);
                        } else {
                            assert(pre[j + 1] == target && pre[k] == target);
                        }
                    }
                }
                assert forall|x: Index| x != target && pre.contains(x) implies list@.contains(
                    x,
                ) by {
                    let j = choose|j: int| 0 <= j < pre.len() && pre[j] == x;
                    if j < k {
                        assert(list@[j] == x);
                    } else {
                        assert(j != k);
                        assert(list@[j - 1] == x);
                    }
                }
                assert(seq_distinct(list@)) by {
                    assert forall|a: int, b: int| 0 <= a < b < list@.len() implies list@[a]
                        != list@[b] by {
                        if a < k && b < k {
                            assert(pre[a] != pre[b]);
                        } else if a < k {
                            assert(pre[a] != pre[b + 1]);
                        } else {
                            assert(pre[a + 1] != pre[b + 1]);
                        }
                    }
                }
            }
            return ;
        }
        i = i + 1;
    }
}

} // verus!
