//! The layout engine: the absolute-bounds solver and the chain layout.
//!
//! The chain layout stacks elements along one axis: fixed-length elements
//! keep their length, and the space left over is split evenly among the
//! `Auto` elements, the first `leftover % autos` of them taking one extra
//! unit. The absolute solver turns one node's bounds request into a
//! rectangle inside its parent's content rectangle.
//!
//! All positions are whole units. Where integer centering cannot split
//! space (content larger than the container), the near edge wins; computed
//! coordinates are clamped into the `i64` range and lengths never go below
//! zero.

use crate::arena::Index;
use crate::math::clamp_i64;
use crate::math::clamp_to_i64;
use crate::math::max_int;
use crate::math::Dimension;
use crate::math::Point;
use crate::math::Rect;
use crate::math::Size;
use crate::math::Surround;
use crate::node::AbsoluteBounds;
use crate::node::Layout;
use vstd::prelude::*;

verus! {

/// Constraints a parent hands down during content-size negotiation.
/// The negotiation protocol itself carries them as two optional lengths;
/// this marker stands for the unconstrained query.
pub struct LayoutConstraints {}

/// One element of a chain: what to lay out, and its requested length
/// along the chain's axis.
#[derive(Clone, Copy, Debug, PartialEq, Eq, Structural)]
pub struct ChainElement {
    pub contents: Index,
    pub length: Dimension,
}

/// A run of elements stacked along one axis.
#[derive(Clone, Debug)]
pub struct ChainLayout {
    pub elements: Vec<ChainElement>,
}

/// The sum of the fixed lengths in the chain.
pub open spec fn spec_fixed_sum(elements: Seq<ChainElement>) -> int
    decreases elements.len(),
{
    if elements.len() == 0 {
        0
    } else {
        spec_fixed_sum(elements.drop_last()) + (match elements.last().length {
            Dimension::Length(v) => v as int,
            Dimension::Auto => 0,
        })
    }
}

/// How many elements of the chain are `Auto`-sized.
pub open spec fn spec_auto_count(elements: Seq<ChainElement>) -> int
    decreases elements.len(),
{
    if elements.len() == 0 {
        0
    } else {
        spec_auto_count(elements.drop_last()) + (if elements.last().length is Auto {
            1int
        } else {
            0int
        })
    }
}

/// The space left for the `Auto` elements after the fixed ones.
pub open spec fn spec_leftover(elements: Seq<ChainElement>, total: int) -> int {
    max_int(0, total - spec_fixed_sum(elements))
}

/// The even share each `Auto` element receives.
pub open spec fn spec_share(elements: Seq<ChainElement>, total: int) -> int {
    if spec_auto_count(elements) > 0 {
        spec_leftover(elements, total) / spec_auto_count(elements)
    } else {
        0
    }
}

/// How many `Auto` elements precede position `i`.
pub open spec fn spec_autos_before(elements: Seq<ChainElement>, i: int) -> int {
    spec_auto_count(elements.take(i))
}

/// The length element `i` receives: its fixed length, or the even share,
/// plus one spare unit for the first `leftover % autos` `Auto` elements.
pub open spec fn spec_length_at(elements: Seq<ChainElement>, total: int, i: int) -> int {
    match elements[i].length {
        Dimension::Length(v) => v as int,
        Dimension::Auto => spec_share(elements, total) + (if spec_autos_before(elements, i)
            < spec_leftover(elements, total) % spec_auto_count(elements) {
            1int
        } else {
            0int
        }),
    }
}

/// Where element `i` starts along the axis: the lengths before it, summed.
pub open spec fn spec_offset_at(elements: Seq<ChainElement>, total: int, i: int) -> int
    decreases i,
{
    if i <= 0 {
        0
    } else {
        spec_offset_at(elements, total, i - 1) + spec_length_at(elements, total, i - 1)
    }
}

/// Every fixed length in the chain is non-negative.
pub open spec fn spec_lengths_nonnegative(elements: Seq<ChainElement>) -> bool {
    forall|k: int|
        0 <= k < elements.len() ==> match (#[trigger] elements[k]).length {
            Dimension::Length(v) => v >= 0,
            Dimension::Auto => true,
        }
}

/// Extending a prefix by one element moves both running sums by that
/// element's contribution.
proof fn lemma_sums_take_succ(elements: Seq<ChainElement>, i: int)
    requires
        0 <= i < elements.len(),
    ensures
        spec_fixed_sum(elements.take(i + 1)) == spec_fixed_sum(elements.take(i)) + (
        match elements[i].length {
            Dimension::Length(v) => v as int,
            Dimension::Auto => 0,
        }),
        spec_auto_count(elements.take(i + 1)) == spec_auto_count(elements.take(i)) + (
        if elements[i].length is Auto {
            1int
        } else {
            0int
        }),
{
    assert(elements.take(i + 1).drop_last() =~= elements.take(i));
    assert(elements.take(i + 1).last() == elements[i]);
}

/// A prefix's fixed sum and auto count are never negative when no fixed
/// length is negative.
proof fn lemma_sums_take_nonneg(elements: Seq<ChainElement>, i: int)
    requires
        spec_lengths_nonnegative(elements),
        0 <= i <= elements.len(),
    ensures
        spec_fixed_sum(elements.take(i)) >= 0,
        spec_auto_count(elements.take(i)) >= 0,
    decreases i,
{
    if i == 0 {
        assert(elements.take(0) =~= Seq::<ChainElement>::empty());
    } else {
        lemma_sums_take_succ(elements, i - 1);
        lemma_sums_take_nonneg(elements, i - 1);
        assert(match elements[i - 1].length {
            Dimension::Length(v) => v >= 0,
            Dimension::Auto => true,
        });
    }
}

/// A prefix's fixed sum is bounded by the whole chain's, and never
/// negative, when no fixed length is negative. The auto count of a prefix
/// is likewise bounded.
proof fn lemma_sums_take_bounds(elements: Seq<ChainElement>, i: int)
    requires
        spec_lengths_nonnegative(elements),
        0 <= i <= elements.len(),
    ensures
        0 <= spec_fixed_sum(elements.take(i)) <= spec_fixed_sum(elements),
        0 <= spec_auto_count(elements.take(i)) <= spec_auto_count(elements),
    decreases elements.len() - i,
{
    lemma_sums_take_nonneg(elements, i);
    if i == elements.len() {
        assert(elements.take(i) =~= elements);
    } else {
        lemma_sums_take_succ(elements, i);
        lemma_sums_take_bounds(elements, i + 1);
        assert(match elements[i].length {
            Dimension::Length(v) => v >= 0,
            Dimension::Auto => true,
        });
    }
}

impl ChainLayout {
    /// An empty chain.
    pub fn new() -> (r: ChainLayout)
        ensures
            r.elements@ == Seq::<ChainElement>::empty(),
    {
        ChainLayout { elements: Vec::new() }
    }

    /// The chain with one more element appended.
    pub fn element(self, contents: Index, length: Dimension) -> (r: ChainLayout)
        ensures
            r.elements@ == self.elements@.push(ChainElement { contents, length }),
    {
        let mut elements = self.elements;
        elements.push(ChainElement { contents, length });
        ChainLayout { elements }
    }

    /// The length every element receives inside `total` units of space.
    ///
    /// Fixed elements keep their length; the space left over is split
    /// evenly among the `Auto` elements, the first `leftover % autos` of
    /// them receiving one extra unit, so the lengths exhaust the leftover
    /// exactly.
    pub fn solve_lengths(&self, total: i64) -> (r: Vec<i64>)
        requires
            total >= 0,
            spec_lengths_nonnegative(self.elements@),
            spec_fixed_sum(self.elements@) + total <= i64::MAX,
        ensures
            r@.len() == self.elements@.len(),
            forall|j: int|
                0 <= j < r@.len() ==> #[trigger] r@[j] as int == spec_length_at(
                    self.elements@,
                    total as int,
                    j,
                ),
            forall|j: int| 0 <= j < r@.len() ==> #[trigger] r@[j] >= 0,
    {
        let ghost elements = self.elements@;
        let n = self.elements.len();
        let mut fixed: u64 = 0;
        let mut autos: u64 = 0;
        let mut i: usize = 0;
        proof {
            assert(elements.take(0) =~= Seq::<ChainElement>::empty());
        }
        while i < n
            invariant
                n == elements.len(),
                elements == self.elements@,
                total >= 0,
                spec_lengths_nonnegative(elements),
                spec_fixed_sum(elements) + total <= i64::MAX,
                0 <= i <= n,
                fixed as int == spec_fixed_sum(elements.take(i as int)),
                autos as int == spec_auto_count(elements.take(i as int)),
                autos as int <= i,
            decreases n - i,
        {
            proof {
                lemma_sums_take_succ(elements, i as int);
                lemma_sums_take_bounds(elements, i as int + 1);
                lemma_sums_take_bounds(elements, elements.len() as int);
            }
            match self.elements[i].length {
                Dimension::Length(v) => {
                    fixed = fixed + (v as u64);
                },
                Dimension::Auto => {
                    autos = autos + 1;
                },
            }
            i = i + 1;
        }
        proof {
            assert(elements.take(n as int) =~= elements);
        }
        let leftover: u64 = if (total as u64) > fixed {
            total as u64 - fixed
        } else {
            0
        };
        let share: u64 = if autos > 0 {
            leftover / autos
        } else {
            0
        };
        let spare: u64 = if autos > 0 {
            leftover % autos
        } else {
            0
        };
        proof {
            assert(leftover as int == spec_leftover(elements, total as int));
            assert(share as int == spec_share(elements, total as int));
            if autos >= 2 && spare > 0 {
                vstd::arithmetic::div_mod::lemma_fundamental_div_mod(
                    leftover as int,
                    autos as int,
                );
                assert(share as int * 2 <= share as int * autos as int) by (nonlinear_arith)
                    requires
                        share as int >= 0,
                        autos as int >= 2,
                ;
            }
            assert(share as int + 1 <= i64::MAX || spare == 0);
        }
        let mut r: Vec<i64> = Vec::new();
        let mut seen: u64 = 0;
        let mut j: usize = 0;
        proof {
            assert(elements.take(0) =~= Seq::<ChainElement>::empty());
        }
        while j < n
            invariant
                n == elements.len(),
                elements == self.elements@,
                total >= 0,
                spec_lengths_nonnegative(elements),
                spec_fixed_sum(elements) + total <= i64::MAX,
                0 <= j <= n,
                r@.len() == j,
                seen as int == spec_autos_before(elements, j as int),
                seen as int <= j,
                leftover as int == spec_leftover(elements, total as int),
                share as int == spec_share(elements, total as int),
                autos as int == spec_auto_count(elements),
                spare as int == (if autos as int > 0 {
                    spec_leftover(elements, total as int) % spec_auto_count(elements)
                } else {
                    0int
                }),
                share as int + 1 <= i64::MAX || spare == 0,
                share <= leftover,
                leftover <= i64::MAX as u64,
                forall|k: int|
                    0 <= k < j ==> #[trigger] r@[k] as int == spec_length_at(
                        elements,
                        total as int,
                        k,
                    ),
                forall|k: int| 0 <= k < j ==> #[trigger] r@[k] >= 0,
            decreases n - j,
        {
            proof {
                lemma_sums_take_succ(elements, j as int);
                lemma_sums_take_bounds(elements, j as int + 1);
            }
            match self.elements[j].length {
                Dimension::Length(v) => {
                    r.push(v);
                },
                Dimension::Auto => {
                    proof {
                        assert(spec_auto_count(elements) >= 1);
                    }
                    let extra: u64 = if seen < spare {
                        1
                    } else {
                        0
                    };
                    r.push((share + extra) as i64);
                    seen = seen + 1;
                },
            }
            j = j + 1;
        }
        r
    }
}

/// A row layout: a chain stacked top to bottom, each row spanning the full
/// width of the bounds it is laid out in.
#[derive(Clone, Debug)]
pub struct RowLayout {
    pub chain: ChainLayout,
}

impl RowLayout {
    /// The chain with one more row appended, of the given height.
    pub fn row(self, child: Index, height: Dimension) -> (r: RowLayout)
        ensures
            r.chain.elements@ == self.chain.elements@.push(
                ChainElement { contents: child, length: height },
            ),
    {
        RowLayout { chain: self.chain.element(child, height) }
    }

    /// Lays the rows out inside `bounds`: every row gets the full bounds
    /// with a top margin at its offset and a bottom margin taking up the
    /// rest, so its inner rectangle is its own band of the bounds.
    pub fn layouts_within_bounds(&self, bounds: &Rect) -> (r: Vec<(Index, Layout)>)
        requires
            bounds.size.height >= 0,
            spec_lengths_nonnegative(self.chain.elements@),
            spec_fixed_sum(self.chain.elements@) + bounds.size.height <= i64::MAX,
        ensures
            r@.len() == self.chain.elements@.len(),
            forall|i: int|
                0 <= i < r@.len() ==> {
                    let elements = self.chain.elements@;
                    let total = bounds.size.height as int;
                    &&& (#[trigger] r@[i]).0 == elements[i].contents
                    &&& r@[i].1.bounds == *bounds
                    &&& r@[i].1.padding == Surround::spec_zero()
                    &&& r@[i].1.margin.left == 0
                    &&& r@[i].1.margin.right == 0
                    &&& r@[i].1.margin.top as int == clamp_i64(spec_offset_at(elements, total, i))
                    &&& r@[i].1.margin.bottom as int == clamp_i64(
                        total - spec_offset_at(elements, total, i) - spec_length_at(
                            elements,
                            total,
                            i,
                        ),
                    )
                },
    {
        let ghost elements = self.chain.elements@;
        let ghost total = bounds.size.height as int;
        let lengths = self.chain.solve_lengths(bounds.size.height);
        let n = self.chain.elements.len();
        let mut r: Vec<(Index, Layout)> = Vec::new();
        let mut offset: i128 = 0;
        let mut i: usize = 0;
        while i < n
            invariant
                n == elements.len(),
                elements == self.chain.elements@,
                total == bounds.size.height as int,
                lengths@.len() == n,
                forall|k: int|
                    0 <= k < n ==> #[trigger] lengths@[k] as int == spec_length_at(
                        elements,
                        total,
                        k,
                    ),
                forall|k: int| 0 <= k < n ==> #[trigger] lengths@[k] >= 0,
                0 <= i <= n,
                r@.len() == i,
                offset as int == spec_offset_at(elements, total, i as int),
                0 <= offset <= (i as int) * (i64::MAX as int),
                forall|k: int|
                    0 <= k < i ==> {
                        &&& (#[trigger] r@[k]).0 == elements[k].contents
                        &&& r@[k].1.bounds == *bounds
                        &&& r@[k].1.padding == Surround::spec_zero()
                        &&& r@[k].1.margin.left == 0
                        &&& r@[k].1.margin.right == 0
                        &&& r@[k].1.margin.top as int == clamp_i64(
                            spec_offset_at(elements, total, k),
                        )
                        &&& r@[k].1.margin.bottom as int == clamp_i64(
                            total - spec_offset_at(elements, total, k) - spec_length_at(
                                elements,
                                total,
                                k,
                            ),
                        )
                    },
            decreases n - i,
        {
            let length = lengths[i];
            let top: i64 = clamp_to_i64(offset);
            let bottom: i64 = clamp_to_i64(bounds.size.height as i128 - offset - length as i128);
            let layout = Layout {
                bounds: *bounds,
                margin: Surround { left: 0, top, right: 0, bottom },
                padding: Surround { left: 0, top: 0, right: 0, bottom: 0 },
            };
            r.push((self.chain.elements[i].contents, layout));
            offset = offset + length as i128;
            i = i + 1;
        }
        r
    }
}

impl Default for RowLayout {
    /// An empty row layout.
    fn default() -> (r: RowLayout)
        ensures
            r.chain.elements@ == Seq::<ChainElement>::empty(),
    {
        RowLayout { chain: ChainLayout::new() }
    }
}

/// One axis of the absolute solver, solved: the offset of the child's
/// rectangle from the container's near edge, and its length.
pub open spec fn spec_solve_axis(
    near: Dimension,
    extent: Dimension,
    far: Dimension,
    content: int,
    available: int,
) -> (int, int) {
    let raw = match (near, extent, far) {
        (Dimension::Length(n), Dimension::Length(e), _) => (n as int, e as int),
        (Dimension::Length(n), Dimension::Auto, Dimension::Length(f)) => (
            n as int,
            available - n - f,
        ),
        (Dimension::Length(n), Dimension::Auto, Dimension::Auto) => (n as int, content),
        (Dimension::Auto, Dimension::Length(e), Dimension::Length(f)) => (
            available - f - e,
            e as int,
        ),
        (Dimension::Auto, Dimension::Length(e), Dimension::Auto) => (
            spec_centered(available, e as int),
            e as int,
        ),
        (Dimension::Auto, Dimension::Auto, Dimension::Length(f)) => (
            available - f - content,
            content,
        ),
        (Dimension::Auto, Dimension::Auto, Dimension::Auto) => (
            spec_centered(available, content),
            content,
        ),
    };
    (clamp_i64(raw.0), clamp_i64(max_int(0, raw.1)))
}

/// Integer centering: half the leftover space, and the near edge when the
/// content does not fit.
pub open spec fn spec_centered(available: int, length: int) -> int {
    if available > length {
        (available - length) / 2
    } else {
        0
    }
}

/// Solves one axis of a bounds request inside `available` units.
///
/// Fixed edges win over the content size; with a fixed near and far edge
/// the length fills the space between them; when both edges are `Auto`
/// the child takes its content length, centered.
pub fn solve_axis(
    near: Dimension,
    extent: Dimension,
    far: Dimension,
    content: i64,
    available: i64,
) -> (r: (i64, i64))
    ensures
        r.0 as int == spec_solve_axis(near, extent, far, content as int, available as int).0,
        r.1 as int == spec_solve_axis(near, extent, far, content as int, available as int).1,
{
    let raw: (i128, i128) = match (near, extent, far) {
        (Dimension::Length(n), Dimension::Length(e), _) => (n as i128, e as i128),
        (Dimension::Length(n), Dimension::Auto, Dimension::Length(f)) => (
            n as i128,
            available as i128 - n as i128 - f as i128,
        ),
        (Dimension::Length(n), Dimension::Auto, Dimension::Auto) => (n as i128, content as i128),
        (Dimension::Auto, Dimension::Length(e), Dimension::Length(f)) => (
            available as i128 - f as i128 - e as i128,
            e as i128,
        ),
        (Dimension::Auto, Dimension::Length(e), Dimension::Auto) => (
            centered(available, e),
            e as i128,
        ),
        (Dimension::Auto, Dimension::Auto, Dimension::Length(f)) => (
            available as i128 - f as i128 - content as i128,
            content as i128,
        ),
        (Dimension::Auto, Dimension::Auto, Dimension::Auto) => (
            centered(available, content),
            content as i128,
        ),
    };
    (
        clamp_to_i64(raw.0),
        clamp_to_i64(
            if raw.1 > 0 {
                raw.1
            } else {
                0
            },
        ),
    )
}

/// Integer centering on machine integers.
fn centered(available: i64, length: i64) -> (r: i128)
    ensures
        r as int == spec_centered(available as int, length as int),
{
    if available > length {
        (available as i128 - length as i128) / 2
    } else {
        0
    }
}

/// The rectangle a bounds request resolves to inside `within`, given the
/// child's content size: both axes solved independently, offset from the
/// container's origin.
pub open spec fn spec_solve_bounds(
    bounds: AbsoluteBounds,
    content: Size,
    within: Rect,
) -> Rect {
    let x = spec_solve_axis(
        bounds.left,
        bounds.width,
        bounds.right,
        content.width as int,
        within.size.width as int,
    );
    let y = spec_solve_axis(
        bounds.top,
        bounds.height,
        bounds.bottom,
        content.height as int,
        within.size.height as int,
    );
    Rect {
        origin: Point {
            x: clamp_i64(within.origin.x + x.0) as i64,
            y: clamp_i64(within.origin.y + y.0) as i64,
        },
        size: Size { width: x.1 as i64, height: y.1 as i64 },
    }
}

/// Solves a node's absolute-bounds request inside its parent's content
/// rectangle.
pub fn solve_bounds(bounds: &AbsoluteBounds, content: Size, within: &Rect) -> (r: Rect)
    ensures
        r == spec_solve_bounds(*bounds, content, *within),
{
    let x = solve_axis(bounds.left, bounds.width, bounds.right, content.width, within.size.width);
    let y = solve_axis(
        bounds.top,
        bounds.height,
        bounds.bottom,
        content.height,
        within.size.height,
    );
    Rect {
        origin: Point {
            x: clamp_to_i64(within.origin.x as i128 + x.0 as i128),
            y: clamp_to_i64(within.origin.y as i128 + y.0 as i128),
        },
        size: Size { width: x.1, height: y.1 },
    }
}

} // verus!
