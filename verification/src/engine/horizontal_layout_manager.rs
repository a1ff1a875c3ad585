use crate::engine::layout_manager::{child_sizes, LayoutManager, Placement};
use crate::engine::point::{Point, Size};
use crate::engine::widget_store::WidgetStore;
use crate::widget::widget::Widget;
use vstd::prelude::*;

verus! {

/// The room, in pixels, that a horizontal layout leaves between two children unless it is
/// told otherwise.
pub const DEFAULT_GUTTER: u16 = 5;

/// The room that a container of the given extent has along one axis: none where the extent
/// is negative.
pub open spec fn interior(extent: i32) -> int {
    if extent > 0 {
        extent as int
    } else {
        0
    }
}

/// What is left of a child's extent along one axis where only `room` is left for it. A child
/// is cut off where the room ends, and never has a negative extent.
pub open spec fn clipped(extent: int, room: int) -> int {
    if extent <= 0 || room <= 0 {
        0
    } else if extent < room {
        extent
    } else {
        room
    }
}

/// Where the child `k` starts, across, in a container `width` wide: the first child at 0,
/// each next child behind what was left of the one before it, with `gutter` between them. No
/// child starts a new row; a start beyond the largest coordinate stays at that coordinate.
pub open spec fn flow_start(sizes: Seq<Size>, width: int, gutter: int, k: int) -> int
    decreases k,
{
    if k <= 0 || k > sizes.len() {
        0
    } else {
        let before = flow_start(sizes, width, gutter, k - 1);
        let next = before + clipped(sizes[k - 1].w as int, width - before) + gutter;
        if next > i32::MAX {
            i32::MAX as int
        } else {
            next
        }
    }
}

/// Where the child `k` goes in a container of the extent `size`: at its start across and at
/// the top, with what is left of its width and of its height.
pub open spec fn flow_placement(sizes: Seq<Size>, size: Size, gutter: int, k: int) -> Placement {
    let x = flow_start(sizes, interior(size.w), gutter, k);
    Placement {
        origin: Point { x: x as i32, y: 0 },
        size: Size {
            w: clipped(sizes[k].w as int, interior(size.w) - x) as i32,
            h: clipped(sizes[k].h as int, interior(size.h)) as i32,
        },
    }
}

/// Where children of the extents `sizes` go, from left to right, in a container of the extent
/// `size`.
pub open spec fn horizontal_flow(size: Size, sizes: Seq<Size>, gutter: int) -> Seq<Placement> {
    Seq::new(sizes.len(), |k: int| flow_placement(sizes, size, gutter, k))
}

/// The extents that a flow gave.
pub open spec fn placed_sizes(placed: Seq<Placement>) -> Seq<Size> {
    Seq::new(placed.len(), |k: int| placed[k].size)
}

/// A child never starts to the left of the container, nor beyond the largest coordinate.
pub proof fn lemma_flow_start_in_range(sizes: Seq<Size>, width: int, gutter: int, k: int)
    requires
        0 <= gutter,
    ensures
        0 <= flow_start(sizes, width, gutter, k) <= i32::MAX,
    decreases k,
{
    if 0 < k <= sizes.len() {
        lemma_flow_start_in_range(sizes, width, gutter, k - 1);
    }
}

/// No child reaches beyond its container: what is left of a child is no wider and no higher
/// than the child was, never negative, no higher than the container, and, where anything is
/// left of it, it ends within the container's width.
pub proof fn lemma_flow_stays_inside(sizes: Seq<Size>, size: Size, gutter: int, k: int)
    requires
        0 <= gutter,
        0 <= k < sizes.len(),
    ensures
        0 <= flow_placement(sizes, size, gutter, k).size.w,
        0 <= flow_placement(sizes, size, gutter, k).size.h <= interior(size.h),
        flow_placement(sizes, size, gutter, k).size.w <= interior(sizes[k].w),
        flow_placement(sizes, size, gutter, k).size.h <= interior(sizes[k].h),
        flow_placement(sizes, size, gutter, k).origin.y == 0,
        0 <= flow_placement(sizes, size, gutter, k).origin.x,
        flow_placement(sizes, size, gutter, k).size.w > 0 ==> flow_placement(
            sizes,
            size,
            gutter,
            k,
        ).origin.x + flow_placement(sizes, size, gutter, k).size.w <= interior(size.w),
{
    lemma_flow_start_in_range(sizes, interior(size.w), gutter, k);
}

/// Children are placed from left to right: none starts before the one before it ends, and the
/// gutter lies between them, as long as the coordinates last.
pub proof fn lemma_flow_goes_right(sizes: Seq<Size>, size: Size, gutter: int, k: int)
    requires
        0 <= gutter,
        0 < k < sizes.len(),
    ensures
        flow_placement(sizes, size, gutter, k).origin.x == i32::MAX || flow_placement(
            sizes,
            size,
            gutter,
            k,
        ).origin.x == flow_placement(sizes, size, gutter, k - 1).origin.x + flow_placement(
            sizes,
            size,
            gutter,
            k - 1,
        ).size.w + gutter,
{
    lemma_flow_start_in_range(sizes, interior(size.w), gutter, k);
    lemma_flow_start_in_range(sizes, interior(size.w), gutter, k - 1);
}

/// Starts depend on the widths before them only through what the flow leaves of them.
proof fn lemma_flow_start_again(sizes: Seq<Size>, size: Size, gutter: int, k: int)
    requires
        0 <= gutter,
        0 <= k <= sizes.len(),
    ensures
        flow_start(placed_sizes(horizontal_flow(size, sizes, gutter)), interior(size.w), gutter, k)
            == flow_start(sizes, interior(size.w), gutter, k),
    decreases k,
{
    if k > 0 {
        lemma_flow_start_again(sizes, size, gutter, k - 1);
        lemma_flow_start_in_range(sizes, interior(size.w), gutter, k - 1);
    }
}

/// Laying out twice changes nothing: children that have the extents that a flow gave them
/// get the same placements again.
pub proof fn lemma_flow_is_idempotent(sizes: Seq<Size>, size: Size, gutter: int)
    requires
        0 <= gutter,
    ensures
        horizontal_flow(size, placed_sizes(horizontal_flow(size, sizes, gutter)), gutter)
            == horizontal_flow(size, sizes, gutter),
{
    let once = horizontal_flow(size, sizes, gutter);
    let twice = horizontal_flow(size, placed_sizes(once), gutter);
    assert forall|k: int| 0 <= k < once.len() implies twice[k] == once[k] by {
        lemma_flow_start_again(sizes, size, gutter, k);
        lemma_flow_start_in_range(sizes, interior(size.w), gutter, k);
    }
    assert(twice =~= once);
}

/// Arranges the children of a container in one row, from left to right.
pub struct HorizontalLayoutManager {
    container_widget_id: i32,
    gutter: u16,
}

impl HorizontalLayoutManager {
    /// The room that the manager leaves between two children.
    pub closed spec fn spec_gutter(&self) -> u16 {
        self.gutter
    }

    /// A manager for the children of the widget `widget_id`, with the usual gutter.
    pub fn new(widget_id: i32) -> (manager: Self)
        ensures
            manager.spec_widget_id() == widget_id,
            manager.spec_gutter() == DEFAULT_GUTTER,
    {
        Self { container_widget_id: widget_id, gutter: DEFAULT_GUTTER }
    }

    /// Sets the room that the manager leaves between two children.
    pub fn set_gutter(&mut self, gutter: u16)
        ensures
            final(self).spec_gutter() == gutter,
            final(self).spec_widget_id() == old(self).spec_widget_id(),
    {
        self.gutter = gutter;
    }

    /// The room that the manager leaves between two children.
    pub fn get_gutter(&self) -> (gutter: u16)
        ensures
            gutter == self.spec_gutter(),
    {
        self.gutter
    }
}

/// What is left of a child's extent along one axis where only `room` is left for it.
fn clip(extent: i32, room: i64) -> (left: i32)
    ensures
        left == clipped(extent as int, room as int),
{
    if extent <= 0 || room <= 0 {
        0
    } else if (extent as i64) < room {
        extent
    } else {
        room as i32
    }
}

impl LayoutManager for HorizontalLayoutManager {
    closed spec fn spec_widget_id(&self) -> i32 {
        self.container_widget_id
    }

    /// A horizontal layout puts the children in one row, whatever their positions were.
    open spec fn placements(&self, size: Size, sizes: Seq<Size>, positions: Seq<Point>) -> Seq<
        Placement,
    > {
        horizontal_flow(size, sizes, self.spec_gutter() as int)
    }

    fn get_widget_id(&self) -> (widget_id: i32) {
        return self.container_widget_id;
    }

    fn resize<W: Widget>(
        &mut self,
        size: Size,
        widget_ids: Vec<i32>,
        widget_positions: Vec<Point>,
        widget_store: &WidgetStore<W>,
    ) -> (placed: Vec<Placement>) {
        let width: i64 = if size.w > 0 {
            size.w as i64
        } else {
            0
        };
        let height: i64 = if size.h > 0 {
            size.h as i64
        } else {
            0
        };
        let ghost sizes = child_sizes(widget_store@, widget_ids@);
        let ghost gutter = self.gutter as int;
        let mut placed: Vec<Placement> = Vec::new();
        let mut x: i64 = 0;
        let mut k: usize = 0;
        while k < widget_ids.len()
            invariant
                widget_store.wf(),
                k <= widget_ids.len(),
                sizes == child_sizes(widget_store@, widget_ids@),
                gutter == self.gutter,
                width == interior(size.w),
                height == interior(size.h),
                0 <= x <= i32::MAX,
                x == flow_start(sizes, width as int, gutter, k as int),
                placed@.len() == k,
                forall|j: int| 0 <= j < k ==> placed@[j] == flow_placement(sizes, size, gutter, j),
            decreases widget_ids.len() - k,
        {
            let child = match widget_store.get_widget(widget_ids[k]) {
                Ok(widget) => widget.get_size(),
                Err(_) => Size { w: 0, h: 0 },
            };
            assert(child == sizes[k as int]);
            let w = clip(child.w, width - x);
            let h = clip(child.h, height);
            placed.push(Placement { origin: Point { x: x as i32, y: 0 }, size: Size { w, h } });
            let next: i64 = x + w as i64 + self.gutter as i64;
            x = if next > i32::MAX as i64 {
                i32::MAX as i64
            } else {
                next
            };
            k += 1;
        }
        assert(placed@ =~= horizontal_flow(size, sizes, gutter));
        placed
    }
}

} // verus!
