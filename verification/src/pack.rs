//! Viewport packing: walk renderable units in document order, keep a running
//! vertical cursor, and draw only the units that fit entirely inside the
//! remaining viewport space. A unit that does not fit is skipped, but the
//! cursor still advances by its height, so later units keep their positions
//! relative to total content height.

use vstd::prelude::*;

verus! {

/// A drawing decision for one unit: the unit at `index` is drawn at vertical
/// cell offset `y` (relative to the viewport origin) with height `height`.
pub struct Placement {
    pub index: usize,
    pub y: u16,
    pub height: u16,
}

/// Sum of all heights in the sequence, as a mathematical integer.
pub open spec fn sum_heights(heights: Seq<u16>) -> int
    decreases heights.len(),
{
    if heights.len() == 0 {
        0
    } else {
        sum_heights(heights.drop_last()) + heights.last()
    }
}

/// The cursor value just before the unit at index `i` is considered.
pub open spec fn cursor_before(heights: Seq<u16>, i: int) -> int {
    sum_heights(heights.take(i))
}

/// A unit is drawn exactly when the cursor is still above the bottom edge and
/// the unit fits strictly within the space that is left.
pub open spec fn is_drawn(heights: Seq<u16>, i: int, viewport_height: u16) -> bool {
    let y = cursor_before(heights, i);
    y < viewport_height && viewport_height - y > heights[i]
}

proof fn lemma_sum_heights_take_succ(heights: Seq<u16>, i: int)
    requires
        0 <= i < heights.len(),
    ensures
        sum_heights(heights.take(i + 1)) == sum_heights(heights.take(i)) + heights[i],
{
    assert(heights.take(i + 1).drop_last() =~= heights.take(i));
    assert(heights.take(i + 1).last() == heights[i]);
}

/// One packing step: decide whether a unit of height `height` is drawn when
/// the cursor stands at `y` inside a viewport of `viewport_height` rows, and
/// advance the cursor unconditionally.
pub fn place_unit(y: u64, height: u16, viewport_height: u16) -> (r: (bool, u64))
    requires
        y + height <= u64::MAX,
    ensures
        r.0 == (y < viewport_height && viewport_height - y > height),
        r.1 == y + height,
{
    let drawn = y < viewport_height as u64 && viewport_height as u64 - y > height as u64;
    (drawn, y + height as u64)
}

/// Pack a whole sequence of unit heights against a viewport of
/// `viewport_height` rows.
///
/// The placements are exactly the drawn units, in document order, each one
/// fitting strictly inside the space remaining at its cursor position; the
/// returned cursor equals the sum of all heights, drawn or not.
pub fn pack_heights(heights: &Vec<u16>, viewport_height: u16) -> (r: (Vec<Placement>, u64))
    requires
        sum_heights(heights@) <= u64::MAX,
    ensures
        r.1 == sum_heights(heights@),
        forall|j: int|
            0 <= j < r.0@.len() ==> {
                let p = #[trigger] r.0@[j];
                &&& p.index < heights@.len()
                &&& is_drawn(heights@, p.index as int, viewport_height)
                &&& p.y == cursor_before(heights@, p.index as int)
                &&& p.height == heights@[p.index as int]
            },
        forall|j1: int, j2: int|
            0 <= j1 < j2 < r.0@.len() ==> #[trigger] r.0@[j1].index < #[trigger] r.0@[j2].index,
        forall|i: int|
            0 <= i < heights@.len() && is_drawn(heights@, i, viewport_height)
                ==> exists|j: int| 0 <= j < r.0@.len() && #[trigger] r.0@[j].index == i,
{
    let mut placements: Vec<Placement> = Vec::new();
    let mut y: u64 = 0;
    let mut i: usize = 0;
    while i < heights.len()
        invariant
            0 <= i <= heights@.len(),
            sum_heights(heights@) <= u64::MAX,
            y == cursor_before(heights@, i as int),
            forall|j: int|
                0 <= j < placements@.len() ==> {
                    let p = #[trigger] placements@[j];
                    &&& p.index < i
                    &&& is_drawn(heights@, p.index as int, viewport_height)
                    &&& p.y == cursor_before(heights@, p.index as int)
                    &&& p.height == heights@[p.index as int]
                },
            forall|j1: int, j2: int|
                0 <= j1 < j2 < placements@.len()
                    ==> #[trigger] placements@[j1].index < #[trigger] placements@[j2].index,
            forall|k: int|
                0 <= k < i && is_drawn(heights@, k, viewport_height)
                    ==> exists|j: int|
                        0 <= j < placements@.len() && #[trigger] placements@[j].index == k,
        decreases heights@.len() - i,
    {
        let h = heights[i];
        proof {
            lemma_sum_heights_take_succ(heights@, i as int);
            lemma_sum_prefix_bound(heights@, i as int + 1);
        }
        let drawn = y < viewport_height as u64 && viewport_height as u64 - y > h as u64;
        if drawn {
            let ghost old_p = placements@;
            placements.push(
                Placement { index: i, y: y as u16, height: h },
            );
            proof {
                assert forall|k: int|
                    0 <= k < i as int + 1 && is_drawn(heights@, k, viewport_height)
                        implies exists|j: int|
                            0 <= j < placements@.len() && #[trigger] placements@[j].index == k by {
                    if k < i as int {
                        let j0 = choose|j: int|
                            0 <= j < old_p.len() && #[trigger] old_p[j].index == k;
                        assert(placements@[j0].index == k);
                    } else {
                        assert(placements@[old_p.len() as int].index == k);
                    }
                }
            }
        }
        y = y + h as u64;
        i = i + 1;
    }
    proof {
        assert(heights@.take(heights@.len() as int) =~= heights@);
    }
    (placements, y)
}

/// The sum of any prefix is at most the sum of the whole sequence.
proof fn lemma_sum_prefix_bound(heights: Seq<u16>, i: int)
    requires
        0 <= i <= heights.len(),
    ensures
        sum_heights(heights.take(i)) <= sum_heights(heights),
    decreases heights.len() - i,
{
    if i < heights.len() {
        lemma_sum_heights_take_succ(heights, i);
        lemma_sum_prefix_bound(heights, i + 1);
    } else {
        assert(heights.take(i) =~= heights);
    }
}

} // verus!
