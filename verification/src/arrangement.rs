//! Arrangement: how the children of a container are laid out along its main
//! axis.
//!
//! Every strategy maps the extents of the children and the span that is
//! available to one offset per child. The offsets are defined over unbounded
//! integers; the executable functions hand them out saturated to `i32`.

use vstd::prelude::*;
use crate::alignment;
use crate::alignment::{bias_offset, nearest_position, shift_by_bias};
use crate::style::AlignItems;
use crate::unit::{clamp_i32, round_div, rounded_div, saturate, Density, Dp};

verus! {

/// The sum of the first `i` extents.
pub open spec fn prefix_sum(sizes: Seq<i32>, i: int) -> int
    decreases i,
{
    if i <= 0 {
        0
    } else {
        prefix_sum(sizes, i - 1) + sizes[i - 1]
    }
}

/// The sum of all extents.
pub open spec fn sum(sizes: Seq<i32>) -> int {
    prefix_sum(sizes, sizes.len() as int)
}

/// Offsets as they are handed out: each saturated to `i32`.
pub open spec fn saturated(offsets: Seq<int>) -> Seq<i32> {
    Seq::new(offsets.len(), |i: int| clamp_i32(offsets[i]) as i32)
}

/// Children packed from the near edge: each starts where the one before ends.
pub open spec fn spec_place_left_or_top(sizes: Seq<i32>) -> Seq<int> {
    Seq::new(sizes.len(), |i: int| prefix_sum(sizes, i))
}

/// Children packed around the middle of `total_size`: child `i` starts at
/// `round((total_size - sum) / 2 + prefix_sum(i))`.
pub open spec fn spec_place_center(total_size: int, sizes: Seq<i32>) -> Seq<int> {
    Seq::new(
        sizes.len(),
        |i: int| round_div(total_size - sum(sizes) + 2 * prefix_sum(sizes, i), 2),
    )
}

/// Children packed against the far edge of `total_size`.
pub open spec fn spec_place_right_or_bottom(total_size: int, sizes: Seq<i32>) -> Seq<int> {
    Seq::new(sizes.len(), |i: int| total_size - sum(sizes) + prefix_sum(sizes, i))
}

/// The span that the first `i` children and the gaps after them take up when
/// they are placed with `px` pixels of spacing inside `total_size`.
pub open spec fn spaced_occupied(px: int, total_size: int, sizes: Seq<i32>, i: int) -> int
    decreases i,
{
    if i <= 0 {
        0
    } else {
        let before = spaced_occupied(px, total_size, sizes, i - 1);
        let size = sizes[i - 1] as int;
        let at = if before <= total_size - size {
            before
        } else {
            total_size - size
        };
        let room = total_size - at - size;
        at + size + if px <= room {
            px
        } else {
            room
        }
    }
}

/// Where child `i` starts: after what came before it, but never so far that it
/// would end beyond `total_size`.
pub open spec fn spaced_position(px: int, total_size: int, sizes: Seq<i32>, i: int) -> int {
    let before = spaced_occupied(px, total_size, sizes, i);
    if before <= total_size - sizes[i] {
        before
    } else {
        total_size - sizes[i]
    }
}

/// The gap that follows child `i`: the declared spacing, or the room that is
/// left if that is less.
pub open spec fn spaced_gap(px: int, total_size: int, sizes: Seq<i32>, i: int) -> int {
    let room = total_size - spaced_position(px, total_size, sizes, i) - sizes[i];
    if px <= room {
        px
    } else {
        room
    }
}

/// The span from the near edge to the end of the last child.
pub open spec fn spaced_consumed(px: int, total_size: int, sizes: Seq<i32>) -> int {
    if sizes.len() == 0 {
        0
    } else {
        let last = sizes.len() - 1;
        spaced_position(px, total_size, sizes, last) + sizes[last]
    }
}

/// How far the whole group is moved once it is placed: by what the group's
/// bias makes of the room that is left, if a bias is given and room is left.
pub open spec fn group_shift(
    px: int,
    alignment: Option<i32>,
    total_size: int,
    sizes: Seq<i32>,
) -> int {
    let consumed = spaced_consumed(px, total_size, sizes);
    match alignment {
        Some(bias) => if consumed < total_size {
            bias_offset(bias as int, total_size - consumed)
        } else {
            0
        },
        None => 0,
    }
}

/// Children placed one after the other with `px` pixels between them, then
/// moved as one group by [`group_shift`].
pub open spec fn spec_spaced_align(
    px: int,
    alignment: Option<i32>,
    total_size: int,
    sizes: Seq<i32>,
) -> Seq<int> {
    Seq::new(
        sizes.len(),
        |i: int|
            spaced_position(px, total_size, sizes, i) + group_shift(
                px,
                alignment,
                total_size,
                sizes,
            ),
    )
}

proof fn lemma_prefix_sum_bounds(sizes: Seq<i32>, i: int)
    requires
        0 <= i <= sizes.len(),
    ensures
        -0x8000_0000 * i <= prefix_sum(sizes, i) <= 0x8000_0000 * i,
    decreases i,
{
    if i > 0 {
        lemma_prefix_sum_bounds(sizes, i - 1);
    }
}

proof fn lemma_spaced_occupied_bounds(px: int, total_size: int, sizes: Seq<i32>, i: int)
    requires
        0 <= i <= sizes.len(),
        -0x8000_0000 <= px < 0x8000_0000,
        -0x8000_0000 <= total_size < 0x8000_0000,
    ensures
        -0x1_0000_0000 * i <= spaced_occupied(px, total_size, sizes, i) <= 0x8000_0000,
    decreases i,
{
    if i > 0 {
        lemma_spaced_occupied_bounds(px, total_size, sizes, i - 1);
    }
}

fn total_of(sizes: &Vec<i32>) -> (total: i128)
    ensures
        total == sum(sizes@),
        -0x8000_0000 * sizes.len() <= total <= 0x8000_0000 * sizes.len(),
{
    let mut total: i128 = 0;
    let mut i: usize = 0;
    while i < sizes.len()
        invariant
            i <= sizes.len(),
            total == prefix_sum(sizes@, i as int),
            -0x8000_0000 * i <= total <= 0x8000_0000 * i,
        decreases sizes.len() - i,
    {
        total = total + sizes[i] as i128;
        i = i + 1;
    }
    total
}

/// Packs the children from the near edge.
pub fn place_left_or_top(sizes: Vec<i32>) -> (offsets: Vec<i32>)
    ensures
        offsets@ == saturated(spec_place_left_or_top(sizes@)),
{
    let mut offsets: Vec<i32> = Vec::with_capacity(sizes.len());
    let mut current: i128 = 0;
    let mut i: usize = 0;
    while i < sizes.len()
        invariant
            i <= sizes.len(),
            current == prefix_sum(sizes@, i as int),
            -0x8000_0000 * i <= current <= 0x8000_0000 * i,
            offsets.len() == i,
            forall|j: int|
                0 <= j < i ==> offsets[j] == clamp_i32(#[trigger] prefix_sum(sizes@, j)),
        decreases sizes.len() - i,
    {
        offsets.push(saturate(current));
        current = current + sizes[i] as i128;
        i = i + 1;
    }
    assert(offsets@ =~= saturated(spec_place_left_or_top(sizes@)));
    offsets
}

/// Packs the children around the middle of `total_size`.
pub fn place_center(total_size: i32, sizes: Vec<i32>) -> (offsets: Vec<i32>)
    ensures
        offsets@ == saturated(spec_place_center(total_size as int, sizes@)),
{
    let consumed: i128 = total_of(&sizes);
    let mut offsets: Vec<i32> = Vec::with_capacity(sizes.len());
    let mut current: i128 = 0;
    let mut i: usize = 0;
    while i < sizes.len()
        invariant
            i <= sizes.len(),
            consumed == sum(sizes@),
            -0x8000_0000 * sizes.len() <= consumed <= 0x8000_0000 * sizes.len(),
            current == prefix_sum(sizes@, i as int),
            -0x8000_0000 * i <= current <= 0x8000_0000 * i,
            offsets.len() == i,
            forall|j: int|
                0 <= j < i ==> offsets[j] == clamp_i32(
                    round_div(total_size - sum(sizes@) + 2 * #[trigger] prefix_sum(sizes@, j), 2),
                ),
        decreases sizes.len() - i,
    {
        offsets.push(saturate(rounded_div(total_size as i128 - consumed + 2 * current, 2)));
        current = current + sizes[i] as i128;
        i = i + 1;
    }
    assert(offsets@ =~= saturated(spec_place_center(total_size as int, sizes@)));
    offsets
}

/// Packs the children against the far edge of `total_size`.
pub fn place_right_or_bottom(total_size: i32, sizes: Vec<i32>) -> (offsets: Vec<i32>)
    ensures
        offsets@ == saturated(spec_place_right_or_bottom(total_size as int, sizes@)),
{
    let consumed: i128 = total_of(&sizes);
    let mut offsets: Vec<i32> = Vec::with_capacity(sizes.len());
    let mut current: i128 = 0;
    let mut i: usize = 0;
    while i < sizes.len()
        invariant
            i <= sizes.len(),
            consumed == sum(sizes@),
            -0x8000_0000 * sizes.len() <= consumed <= 0x8000_0000 * sizes.len(),
            current == prefix_sum(sizes@, i as int),
            -0x8000_0000 * i <= current <= 0x8000_0000 * i,
            offsets.len() == i,
            forall|j: int|
                0 <= j < i ==> offsets[j] == clamp_i32(
                    total_size - sum(sizes@) + #[trigger] prefix_sum(sizes@, j),
                ),
        decreases sizes.len() - i,
    {
        offsets.push(saturate(total_size as i128 - consumed + current));
        current = current + sizes[i] as i128;
        i = i + 1;
    }
    assert(offsets@ =~= saturated(spec_place_right_or_bottom(total_size as int, sizes@)));
    offsets
}

/// Places the children with `space` between them, inside `total_size`, and
/// moves the group by the bias `alignment` (in thousandths) if one is given
/// and room is left.
pub fn spaced_align(
    space: Dp,
    alignment: Option<i32>,
    density: Density,
    total_size: i32,
    sizes: Vec<i32>,
) -> (offsets: Vec<i32>)
    ensures
        offsets@ == saturated(
            spec_spaced_align(
                density.spec_round_to_pixels(space),
                alignment,
                total_size as int,
                sizes@,
            ),
        ),
{
    if sizes.len() == 0 {
        assert(sizes@ =~= saturated(
            spec_spaced_align(
                density.spec_round_to_pixels(space),
                alignment,
                total_size as int,
                sizes@,
            ),
        ));
        return sizes;
    }
    let space_px: i32 = density.round_to_pixels(space);
    let ghost px: int = space_px as int;
    let total: i128 = total_size as i128;
    let mut occupied: i128 = 0;
    let mut consumed: i128 = 0;
    let mut placed: Vec<i128> = Vec::with_capacity(sizes.len());
    let mut i: usize = 0;
    while i < sizes.len()
        invariant
            i <= sizes.len(),
            px == space_px,
            total == total_size,
            occupied == spaced_occupied(px, total as int, sizes@, i as int),
            -0x1_0000_0000 * i <= occupied <= 0x8000_0000,
            placed.len() == i,
            forall|j: int|
                0 <= j < i ==> placed[j] == #[trigger] spaced_position(
                    px,
                    total as int,
                    sizes@,
                    j,
                ),
            forall|j: int|
                0 <= j < i ==> -0x2_0000_0000_0000_0000_0000_0000 <= #[trigger] placed[j]
                    <= 0x1_0000_0000,
            i > 0 ==> consumed == spaced_position(px, total as int, sizes@, i - 1) + sizes[i - 1],
            -0x1_0000_0000 * (i + 1) <= consumed <= 0x1_0000_0000,
        decreases sizes.len() - i,
    {
        let size: i128 = sizes[i] as i128;
        let at: i128 = if occupied <= total - size {
            occupied
        } else {
            total - size
        };
        let room: i128 = total - at - size;
        let gap: i128 = if space_px as i128 <= room {
            space_px as i128
        } else {
            room
        };
        placed.push(at);
        consumed = at + size;
        occupied = at + size + gap;
        i = i + 1;
    }
    let shift: i128 = match alignment {
        Some(bias) => if consumed < total {
            shift_by_bias(bias, total - consumed)
        } else {
            0
        },
        None => 0,
    };
    assert(shift == group_shift(px, alignment, total as int, sizes@));
    let mut offsets: Vec<i32> = Vec::with_capacity(sizes.len());
    let mut k: usize = 0;
    while k < placed.len()
        invariant
            k <= placed.len(),
            placed.len() == sizes.len(),
            -0x1000_0000_0000_0000_0000_0000_0000_0000 <= shift
                <= 0x1000_0000_0000_0000_0000_0000_0000_0000,
            forall|j: int|
                0 <= j < placed.len() ==> placed[j] == #[trigger] spaced_position(
                    px,
                    total as int,
                    sizes@,
                    j,
                ),
            forall|j: int|
                0 <= j < placed.len() ==> -0x2_0000_0000_0000_0000_0000_0000
                    <= #[trigger] placed[j] <= 0x1_0000_0000,
            offsets.len() == k,
            forall|j: int| 0 <= j < k ==> offsets[j] == clamp_i32(#[trigger] placed[j] + shift),
        decreases placed.len() - k,
    {
        offsets.push(saturate(placed[k] + shift));
        k = k + 1;
    }
    assert(offsets@ =~= saturated(spec_spaced_align(px, alignment, total as int, sizes@)));
    offsets
}

proof fn lemma_prefix_sum_monotone(sizes: Seq<i32>, i: int, j: int)
    requires
        forall|k: int| 0 <= k < sizes.len() ==> sizes[k] >= 0,
        0 <= i <= j <= sizes.len(),
    ensures
        0 <= prefix_sum(sizes, i) <= prefix_sum(sizes, j),
    decreases j,
{
    if i < j {
        lemma_prefix_sum_monotone(sizes, i, j - 1);
    } else if j > 0 {
        lemma_prefix_sum_monotone(sizes, i - 1, j - 1);
    }
}

proof fn lemma_spaced_occupied_with_room(px: int, total_size: int, sizes: Seq<i32>, i: int)
    requires
        px >= 0,
        forall|k: int| 0 <= k < sizes.len() ==> sizes[k] >= 0,
        sizes.len() > 0,
        total_size >= sum(sizes) + (sizes.len() - 1) * px,
        0 <= i < sizes.len(),
    ensures
        spaced_occupied(px, total_size, sizes, i) == prefix_sum(sizes, i) + i * px,
        spaced_position(px, total_size, sizes, i) == prefix_sum(sizes, i) + i * px,
    decreases i,
{
    let n: int = sizes.len() as int;
    lemma_prefix_sum_monotone(sizes, i + 1, n);
    assert(i * px <= (n - 1) * px) by (nonlinear_arith)
        requires
            0 <= i <= n - 1,
            px >= 0,
    ;
    if i > 0 {
        lemma_spaced_occupied_with_room(px, total_size, sizes, i - 1);
        lemma_prefix_sum_monotone(sizes, i, n);
        assert((i - 1) * px + px == i * px) by (nonlinear_arith);
        let before: int = spaced_occupied(px, total_size, sizes, i - 1);
        let size: int = sizes[i - 1] as int;
        assert(before == prefix_sum(sizes, i - 1) + (i - 1) * px);
        assert(prefix_sum(sizes, i) == prefix_sum(sizes, i - 1) + size);
        assert(before + size + px <= total_size);
        assert(spaced_occupied(px, total_size, sizes, i) == before + size + px);
    } else {
        assert(0 * px == 0) by (nonlinear_arith);
    }
    assert(prefix_sum(sizes, i + 1) == prefix_sum(sizes, i) + sizes[i]);
}

proof fn lemma_spaced_ends(px: int, total_size: int, sizes: Seq<i32>, i: int, j: int)
    requires
        px >= 0,
        forall|k: int| 0 <= k < sizes.len() ==> sizes[k] >= 0,
        0 <= i <= j < sizes.len(),
    ensures
        spaced_position(px, total_size, sizes, i) + sizes[i] <= spaced_position(
            px,
            total_size,
            sizes,
            j,
        ) + sizes[j] <= total_size,
        spaced_gap(px, total_size, sizes, j) >= 0,
    decreases j - i,
{
    if i < j {
        lemma_spaced_ends(px, total_size, sizes, i, j - 1);
        assert(spaced_occupied(px, total_size, sizes, j) == spaced_position(
            px,
            total_size,
            sizes,
            j - 1,
        ) + sizes[j - 1] + spaced_gap(px, total_size, sizes, j - 1));
    }
}

/// With room for every child and every gap, consecutive children start exactly
/// one extent and one spacing apart, wherever the group is moved.
pub proof fn lemma_spaced_with_room(
    px: int,
    alignment: Option<i32>,
    total_size: int,
    sizes: Seq<i32>,
)
    requires
        px >= 0,
        forall|k: int| 0 <= k < sizes.len() ==> sizes[k] >= 0,
        total_size >= sum(sizes) + (sizes.len() - 1) * px,
    ensures
        forall|i: int|
            0 <= i < sizes.len() - 1 ==> #[trigger] spec_spaced_align(
                px,
                alignment,
                total_size,
                sizes,
            )[i + 1] - spec_spaced_align(px, alignment, total_size, sizes)[i] == sizes[i] + px,
{
    let offsets = spec_spaced_align(px, alignment, total_size, sizes);
    assert forall|i: int| 0 <= i < sizes.len() - 1 implies #[trigger] offsets[i + 1] - offsets[i]
        == sizes[i] + px by {
        lemma_spaced_occupied_with_room(px, total_size, sizes, i);
        lemma_spaced_occupied_with_room(px, total_size, sizes, i + 1);
        assert((i + 1) * px == i * px + px) by (nonlinear_arith);
    }
}

/// Whatever room there is, no child ends beyond `total_size`, and no gap is
/// negative.
pub proof fn lemma_spaced_clamped(
    px: int,
    alignment: Option<i32>,
    total_size: int,
    sizes: Seq<i32>,
)
    requires
        px >= 0,
        forall|k: int| 0 <= k < sizes.len() ==> sizes[k] >= 0,
        alignment matches Some(bias) ==> -1000 <= bias <= 1000,
    ensures
        forall|i: int|
            0 <= i < sizes.len() ==> #[trigger] spec_spaced_align(
                px,
                alignment,
                total_size,
                sizes,
            )[i] <= total_size - sizes[i],
        forall|i: int|
            0 <= i < sizes.len() ==> #[trigger] spaced_gap(px, total_size, sizes, i) >= 0,
{
    let offsets = spec_spaced_align(px, alignment, total_size, sizes);
    let shift = group_shift(px, alignment, total_size, sizes);
    let consumed = spaced_consumed(px, total_size, sizes);
    if alignment is Some && consumed < total_size {
        alignment::lemma_bias_offset_within(alignment->0 as int, total_size - consumed);
    }
    assert forall|i: int| 0 <= i < sizes.len() implies #[trigger] offsets[i] <= total_size
        - sizes[i] by {
        lemma_spaced_ends(px, total_size, sizes, i, sizes.len() - 1);
    }
    assert forall|i: int| 0 <= i < sizes.len() implies #[trigger] spaced_gap(
        px,
        total_size,
        sizes,
        i,
    ) >= 0 by {
        lemma_spaced_ends(px, total_size, sizes, i, i);
    }
}

/// Aligning the group moves every child by the same amount: the distances
/// between the children are those of the group that was not aligned.
pub proof fn lemma_group_alignment_rigid(px: int, bias: i32, total_size: int, sizes: Seq<i32>)
    ensures
        forall|i: int|
            0 <= i < sizes.len() ==> #[trigger] spec_spaced_align(
                px,
                Some(bias),
                total_size,
                sizes,
            )[i] == spec_spaced_align(px, None, total_size, sizes)[i] + group_shift(
                px,
                Some(bias),
                total_size,
                sizes,
            ),
        forall|i: int, j: int|
            0 <= i < sizes.len() && 0 <= j < sizes.len() ==> #[trigger] spec_spaced_align(
                px,
                Some(bias),
                total_size,
                sizes,
            )[j] - #[trigger] spec_spaced_align(px, Some(bias), total_size, sizes)[i]
                == spec_spaced_align(px, None, total_size, sizes)[j] - spec_spaced_align(
                px,
                None,
                total_size,
                sizes,
            )[i],
{
}

/// A strategy for the main axis of a row.
pub trait Horizontal {
    /// The spacing declared between two children.
    spec fn spec_spacing(&self) -> Dp;

    /// The position of the group that the layout engine is told.
    spec fn spec_justify(&self) -> AlignItems;

    /// The offset of each child, before saturation.
    spec fn spec_arrange(&self, density: Density, total_size: int, sizes: Seq<i32>) -> Seq<int>;

    /// Every child gets an offset.
    proof fn lemma_arrange(&self, density: Density, total_size: int, sizes: Seq<i32>)
        ensures
            self.spec_arrange(density, total_size, sizes).len() == sizes.len(),
    ;

    fn spacing(&self) -> (dp: Dp)
        ensures
            dp == self.spec_spacing(),
    ;

    fn justify(&self) -> (position: AlignItems)
        ensures
            position == self.spec_justify(),
    ;

    fn arrange(&self, density: Density, total_size: i32, sizes: Vec<i32>) -> (offsets: Vec<i32>)
        ensures
            offsets@ == saturated(self.spec_arrange(density, total_size as int, sizes@)),
    ;
}

/// A strategy for the main axis of a column.
pub trait Vertical {
    /// The spacing declared between two children.
    spec fn spec_spacing(&self) -> Dp;

    /// The position of the group that the layout engine is told.
    spec fn spec_align(&self) -> AlignItems;

    /// The offset of each child, before saturation.
    spec fn spec_arrange(&self, density: Density, total_size: int, sizes: Seq<i32>) -> Seq<int>;

    /// Every child gets an offset.
    proof fn lemma_arrange(&self, density: Density, total_size: int, sizes: Seq<i32>)
        ensures
            self.spec_arrange(density, total_size, sizes).len() == sizes.len(),
    ;

    fn spacing(&self) -> (dp: Dp)
        ensures
            dp == self.spec_spacing(),
    ;

    fn align(&self) -> (position: AlignItems)
        ensures
            position == self.spec_align(),
    ;

    fn arrange(&self, density: Density, total_size: i32, sizes: Vec<i32>) -> (offsets: Vec<i32>)
        ensures
            offsets@ == saturated(self.spec_arrange(density, total_size as int, sizes@)),
    ;
}

/// A strategy that serves both axes.
pub trait Arrangement: Vertical + Horizontal {

}

/// The strategies for a row.
#[derive(Clone, Copy, Debug, PartialEq, Eq)]
pub enum BuiltinHorizontal {
    Start,
    Center,
    End,
    SpacedBy(Dp),
    SpacedAligned(Dp, alignment::Horizontal),
    Aligned(alignment::Horizontal),
}

/// The strategies for a column.
#[derive(Clone, Copy, Debug, PartialEq, Eq)]
pub enum BuiltinVertical {
    Top,
    Center,
    Bottom,
    SpacedBy(Dp),
    SpacedAligned(Dp, alignment::Vertical),
    Aligned(alignment::Vertical),
}

/// The names of the strategies that do not depend on the axis.
#[derive(Clone, Copy, Debug, PartialEq, Eq)]
pub enum Builtin {
    Center,
    SpaceEvenly,
    SpaceBetween,
    SpaceAround,
    SpacedBy(Dp),
}

impl Horizontal for BuiltinHorizontal {
    open spec fn spec_spacing(&self) -> Dp {
        match *self {
            BuiltinHorizontal::SpacedBy(dp) => dp,
            BuiltinHorizontal::SpacedAligned(dp, _) => dp,
            _ => Dp(0),
        }
    }

    open spec fn spec_justify(&self) -> AlignItems {
        match *self {
            BuiltinHorizontal::Aligned(align) => nearest_position(align.spec_bias()),
            BuiltinHorizontal::SpacedAligned(_, align) => nearest_position(align.spec_bias()),
            BuiltinHorizontal::Start => AlignItems::Start,
            BuiltinHorizontal::Center => AlignItems::Center,
            BuiltinHorizontal::End => AlignItems::End,
            BuiltinHorizontal::SpacedBy(_) => AlignItems::Start,
        }
    }

    open spec fn spec_arrange(&self, density: Density, total_size: int, sizes: Seq<i32>) -> Seq<
        int,
    > {
        match *self {
            BuiltinHorizontal::Start => spec_place_left_or_top(sizes),
            BuiltinHorizontal::Center => spec_place_center(total_size, sizes),
            BuiltinHorizontal::End => spec_place_right_or_bottom(total_size, sizes),
            BuiltinHorizontal::SpacedBy(space) => spec_spaced_align(
                density.spec_round_to_pixels(space),
                None,
                total_size,
                sizes,
            ),
            BuiltinHorizontal::SpacedAligned(space, align) => spec_spaced_align(
                density.spec_round_to_pixels(space),
                Some(align.spec_bias() as i32),
                total_size,
                sizes,
            ),
            BuiltinHorizontal::Aligned(align) => spec_spaced_align(
                density.spec_round_to_pixels(Dp(0)),
                Some(align.spec_bias() as i32),
                total_size,
                sizes,
            ),
        }
    }

    proof fn lemma_arrange(&self, density: Density, total_size: int, sizes: Seq<i32>) {
    }

    fn spacing(&self) -> (dp: Dp) {
        match self {
            BuiltinHorizontal::SpacedBy(dp) => *dp,
            BuiltinHorizontal::SpacedAligned(dp, _) => *dp,
            _ => Dp(0),
        }
    }

    fn justify(&self) -> (position: AlignItems) {
        match self {
            BuiltinHorizontal::Aligned(align) => align.justify(),
            BuiltinHorizontal::SpacedAligned(_, align) => align.justify(),
            BuiltinHorizontal::Start => AlignItems::Start,
            BuiltinHorizontal::Center => AlignItems::Center,
            BuiltinHorizontal::End => AlignItems::End,
            BuiltinHorizontal::SpacedBy(_) => AlignItems::Start,
        }
    }

    fn arrange(&self, density: Density, total_size: i32, sizes: Vec<i32>) -> (offsets: Vec<i32>) {
        match self {
            BuiltinHorizontal::Start => place_left_or_top(sizes),
            BuiltinHorizontal::Center => place_center(total_size, sizes),
            BuiltinHorizontal::End => place_right_or_bottom(total_size, sizes),
            BuiltinHorizontal::SpacedBy(space) => spaced_align(
                *space,
                None,
                density,
                total_size,
                sizes,
            ),
            BuiltinHorizontal::SpacedAligned(space, align) => spaced_align(
                *space,
                Some(align.bias()),
                density,
                total_size,
                sizes,
            ),
            BuiltinHorizontal::Aligned(align) => spaced_align(
                Dp(0),
                Some(align.bias()),
                density,
                total_size,
                sizes,
            ),
        }
    }
}

impl Vertical for BuiltinVertical {
    open spec fn spec_spacing(&self) -> Dp {
        match *self {
            BuiltinVertical::SpacedBy(dp) => dp,
            BuiltinVertical::SpacedAligned(dp, _) => dp,
            _ => Dp(0),
        }
    }

    open spec fn spec_align(&self) -> AlignItems {
        match *self {
            BuiltinVertical::Aligned(align) => nearest_position(align.spec_bias()),
            BuiltinVertical::SpacedAligned(_, align) => nearest_position(align.spec_bias()),
            BuiltinVertical::Top => AlignItems::Start,
            BuiltinVertical::Center => AlignItems::Center,
            BuiltinVertical::Bottom => AlignItems::End,
            BuiltinVertical::SpacedBy(_) => AlignItems::Start,
        }
    }

    open spec fn spec_arrange(&self, density: Density, total_size: int, sizes: Seq<i32>) -> Seq<
        int,
    > {
        match *self {
            BuiltinVertical::Top => spec_place_left_or_top(sizes),
            BuiltinVertical::Center => spec_place_center(total_size, sizes),
            BuiltinVertical::Bottom => spec_place_right_or_bottom(total_size, sizes),
            BuiltinVertical::SpacedBy(space) => spec_spaced_align(
                density.spec_round_to_pixels(space),
                None,
                total_size,
                sizes,
            ),
            BuiltinVertical::SpacedAligned(space, align) => spec_spaced_align(
                density.spec_round_to_pixels(space),
                Some(align.spec_bias() as i32),
                total_size,
                sizes,
            ),
            BuiltinVertical::Aligned(align) => spec_spaced_align(
                density.spec_round_to_pixels(Dp(0)),
                Some(align.spec_bias() as i32),
                total_size,
                sizes,
            ),
        }
    }

    proof fn lemma_arrange(&self, density: Density, total_size: int, sizes: Seq<i32>) {
    }

    fn spacing(&self) -> (dp: Dp) {
        match self {
            BuiltinVertical::SpacedBy(dp) => *dp,
            BuiltinVertical::SpacedAligned(dp, _) => *dp,
            _ => Dp(0),
        }
    }

    fn align(&self) -> (position: AlignItems) {
        match self {
            BuiltinVertical::Aligned(align) => align.align_items(),
            BuiltinVertical::SpacedAligned(_, align) => align.align_items(),
            BuiltinVertical::Top => AlignItems::Start,
            BuiltinVertical::Center => AlignItems::Center,
            BuiltinVertical::Bottom => AlignItems::End,
            BuiltinVertical::SpacedBy(_) => AlignItems::Start,
        }
    }

    fn arrange(&self, density: Density, total_size: i32, sizes: Vec<i32>) -> (offsets: Vec<i32>) {
        match self {
            BuiltinVertical::Top => place_left_or_top(sizes),
            BuiltinVertical::Center => place_center(total_size, sizes),
            BuiltinVertical::Bottom => place_right_or_bottom(total_size, sizes),
            BuiltinVertical::SpacedBy(space) => spaced_align(
                *space,
                None,
                density,
                total_size,
                sizes,
            ),
            BuiltinVertical::SpacedAligned(space, align) => spaced_align(
                *space,
                Some(align.bias()),
                density,
                total_size,
                sizes,
            ),
            BuiltinVertical::Aligned(align) => spaced_align(
                Dp(0),
                Some(align.bias()),
                density,
                total_size,
                sizes,
            ),
        }
    }
}

} // verus!
