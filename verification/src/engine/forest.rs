use crate::engine::point::{bounds_contain, Point, Size};
use crate::widget::config::{
    point_setting, size_setting, toggle_setting, Config, CONFIG_BODY_SIZE, CONFIG_INVALIDATE,
    CONFIG_ORIGIN, CONFIG_WIDGET_HIDDEN,
};
use vstd::prelude::*;

verus! {

/// The place of one widget in the forest, with the widget's settings. A tree that was taken
/// out of the window is marked at its root.
pub struct WidgetNode {
    pub parent: Option<i32>,
    pub children: Seq<i32>,
    pub removed: bool,
    pub settings: Map<u8, Config>,
}

/// Every parent has a smaller id than its child and lists the child.
pub open spec fn parent_links_hold(nodes: Seq<WidgetNode>) -> bool {
    forall|i: int|
        0 <= i < nodes.len() ==> match (#[trigger] nodes[i]).parent {
            Some(p) => 0 <= p < i && nodes[p as int].children.contains(i as i32),
            None => true,
        }
}

/// Every listed child exists, has a larger id than the widget that lists it, and names that
/// widget as its parent.
pub open spec fn child_links_hold(nodes: Seq<WidgetNode>) -> bool {
    forall|i: int, k: int|
        0 <= i < nodes.len() && 0 <= k < nodes[i].children.len() ==> {
            let c = #[trigger] nodes[i].children[k];
            i < c < nodes.len() && nodes[c as int].parent == Some(i as i32)
        }
}

/// Every list of children ascends, so that none holds an id twice.
pub open spec fn children_ascend(nodes: Seq<WidgetNode>) -> bool {
    forall|i: int, j: int, k: int|
        0 <= i < nodes.len() && 0 <= j < k < nodes[i].children.len()
            ==> #[trigger] nodes[i].children[j]
            < #[trigger] nodes[i].children[k]
}

/// Only a root is ever marked as removed.
pub open spec fn removed_are_roots(nodes: Seq<WidgetNode>) -> bool {
    forall|i: int| 0 <= i < nodes.len() && (#[trigger] nodes[i]).removed ==> nodes[i].parent is None
}

/// Whether `nodes`, each at the index that is its id, make a forest whose ids fit the type of
/// an id.
pub open spec fn is_forest(nodes: Seq<WidgetNode>) -> bool {
    &&& nodes.len() <= i32::MAX
    &&& parent_links_hold(nodes)
    &&& child_links_hold(nodes)
    &&& children_ascend(nodes)
    &&& removed_are_roots(nodes)
}

/// Whether the widget `inner` is the widget `outer` or lies within it, directly or not.
pub open spec fn lies_within(nodes: Seq<WidgetNode>, outer: int, inner: int) -> bool
    decreases inner,
{
    0 <= inner < nodes.len() && (inner == outer || match nodes[inner].parent {
        Some(parent) => 0 <= parent < inner && lies_within(nodes, outer, parent as int),
        None => false,
    })
}

/// Going up from the widget `id`: the first widget on the way whose parent is `top`, or the
/// root that the way ends in. With no `top`, this is the root of the widget's tree.
pub open spec fn anchor(nodes: Seq<WidgetNode>, top: Option<i32>, id: int) -> int
    decreases id,
{
    if 0 <= id < nodes.len() && nodes[id].parent != top {
        match nodes[id].parent {
            Some(parent) => if 0 <= parent < id {
                anchor(nodes, top, parent as int)
            } else {
                id
            },
            None => id,
        }
    } else {
        id
    }
}

/// Whether `id` names a widget that is still in the window: one whose tree was not removed.
pub open spec fn alive(nodes: Seq<WidgetNode>, id: int) -> bool {
    0 <= id < nodes.len() && !nodes[anchor(nodes, None, id)].removed
}

/// Whether the widget is a root of the window: it has no parent and was not removed.
pub open spec fn is_live_root(node: WidgetNode) -> bool {
    node.parent is None && !node.removed
}

/// Where the widget starts, in the space of its container.
pub open spec fn node_origin(node: WidgetNode) -> Point {
    point_setting(node.settings, CONFIG_ORIGIN)
}

/// The widget's extent.
pub open spec fn node_size(node: WidgetNode) -> Size {
    size_setting(node.settings, CONFIG_BODY_SIZE)
}

/// Whether the widget's bounds hold the position `(x, y)` of its container's space.
pub open spec fn node_contains(node: WidgetNode, x: int, y: int) -> bool {
    bounds_contain(node_origin(node), node_size(node), x, y)
}

/// Whether the widget is marked for a redraw and not hidden.
pub open spec fn node_needs_redraw(node: WidgetNode) -> bool {
    node.settings.contains_key(CONFIG_INVALIDATE) && !toggle_setting(
        node.settings,
        CONFIG_WIDGET_HIDDEN,
    )
}

/// The widget `id` and all that lies within it, in the order of drawing: the widget, then its
/// children with all of theirs, from the first inserted to the last.
pub open spec fn order_of_subtree(nodes: Seq<WidgetNode>, id: int) -> Seq<i32>
    decreases nodes.len() - id, 1int, 0int,
{
    if 0 <= id < nodes.len() {
        seq![id as i32] + order_of_children(nodes, id, nodes[id].children.len() as int)
    } else {
        Seq::empty()
    }
}

/// The first `count` children of the widget `id`, each with all that lies within it, in the
/// order of drawing.
pub open spec fn order_of_children(nodes: Seq<WidgetNode>, id: int, count: int) -> Seq<i32>
    decreases nodes.len() - id, 0int, count,
{
    if 0 <= id < nodes.len() && 0 < count <= nodes[id].children.len() {
        let child = nodes[id].children[count - 1] as int;
        order_of_children(nodes, id, count - 1) + (if id < child < nodes.len() {
            order_of_subtree(nodes, child)
        } else {
            Seq::empty()
        })
    } else {
        Seq::empty()
    }
}

/// The roots of the window among the first `count` widgets, each with all that lies within
/// it, in the order of drawing.
pub open spec fn order_of_roots(nodes: Seq<WidgetNode>, count: int) -> Seq<i32>
    decreases count,
{
    if 0 < count <= nodes.len() {
        order_of_roots(nodes, count - 1) + (if is_live_root(nodes[count - 1]) {
            order_of_subtree(nodes, count - 1)
        } else {
            Seq::empty()
        })
    } else {
        Seq::empty()
    }
}

/// All widgets of the window in the order of drawing: a parent before its children, and the
/// children of one parent, like the roots, from the first inserted to the last.
pub open spec fn draw_order(nodes: Seq<WidgetNode>) -> Seq<i32> {
    order_of_roots(nodes, nodes.len() as int)
}

/// Those among the widget `id` and all that lies within it whose bounds hold `(x, y)`, a
/// position in the space of the widget's container; the topmost comes first. What lies within
/// a widget lies on top of it, and is tested with the position taken into the widget's own
/// space.
pub open spec fn hits_in_subtree(nodes: Seq<WidgetNode>, id: int, x: int, y: int) -> Seq<i32>
    decreases nodes.len() - id, 1int, 0int,
{
    if 0 <= id < nodes.len() {
        let origin = node_origin(nodes[id]);
        hits_in_children(nodes, id, nodes[id].children.len() as int, x - origin.x, y - origin.y)
            + (if node_contains(nodes[id], x, y) {
            seq![id as i32]
        } else {
            Seq::empty()
        })
    } else {
        Seq::empty()
    }
}

/// Those among the first `count` children of the widget `id`, and all that lies within them,
/// whose bounds hold `(x, y)`, a position in the space of the widget `id`; the topmost comes
/// first. A child inserted later lies on top of one inserted before.
pub open spec fn hits_in_children(
    nodes: Seq<WidgetNode>,
    id: int,
    count: int,
    x: int,
    y: int,
) -> Seq<i32>
    decreases nodes.len() - id, 0int, count,
{
    if 0 <= id < nodes.len() && 0 < count <= nodes[id].children.len() {
        let child = nodes[id].children[count - 1] as int;
        (if id < child < nodes.len() {
            hits_in_subtree(nodes, child, x, y)
        } else {
            Seq::empty()
        }) + hits_in_children(nodes, id, count - 1, x, y)
    } else {
        Seq::empty()
    }
}

/// Those among the first `count` widgets whose bounds hold `(x, y)`, a position in the
/// window's space, as far as they are roots or lie within such a root; the topmost comes
/// first. A root inserted later lies on top of one inserted before.
pub open spec fn hits_in_roots(nodes: Seq<WidgetNode>, count: int, x: int, y: int) -> Seq<i32>
    decreases count,
{
    if 0 < count <= nodes.len() {
        (if is_live_root(nodes[count - 1]) {
            hits_in_subtree(nodes, count - 1, x, y)
        } else {
            Seq::empty()
        }) + hits_in_roots(nodes, count - 1, x, y)
    } else {
        Seq::empty()
    }
}

/// All widgets of the window whose bounds hold `point`, a position in the window's space,
/// from the topmost to the bottommost.
pub open spec fn hit_sequence(nodes: Seq<WidgetNode>, point: Point) -> Seq<i32> {
    hits_in_roots(nodes, nodes.len() as int, point.x as int, point.y as int)
}

/// Where the space of the widget's container starts, across, in the window's space: the sum
/// of what the origins of the widgets around it add.
pub open spec fn offset_x(nodes: Seq<WidgetNode>, id: int) -> int
    decreases id,
{
    if 0 <= id < nodes.len() {
        match nodes[id].parent {
            Some(parent) => if 0 <= parent < id {
                offset_x(nodes, parent as int) + node_origin(nodes[parent as int]).x
            } else {
                0
            },
            None => 0,
        }
    } else {
        0
    }
}

/// Where the space of the widget's container starts, down, in the window's space.
pub open spec fn offset_y(nodes: Seq<WidgetNode>, id: int) -> int
    decreases id,
{
    if 0 <= id < nodes.len() {
        match nodes[id].parent {
            Some(parent) => if 0 <= parent < id {
                offset_y(nodes, parent as int) + node_origin(nodes[parent as int]).y
            } else {
                0
            },
            None => 0,
        }
    } else {
        0
    }
}

/// The test that keeps the widgets that are marked for a redraw and not hidden.
pub open spec fn due_for_redraw(nodes: Seq<WidgetNode>) -> spec_fn(i32) -> bool {
    |id: i32| 0 <= id < nodes.len() && node_needs_redraw(nodes[id as int])
}

/// The widgets that a redraw paints, in the order in which it paints them: the order of
/// drawing, without the widgets that are hidden or not marked.
pub open spec fn redraw_order(nodes: Seq<WidgetNode>) -> Seq<i32> {
    draw_order(nodes).filter(due_for_redraw(nodes))
}

/// Whether `after` has the widgets of `before` in the same places: the same parents and the
/// same children, and the same trees removed, whatever became of the settings.
pub open spec fn same_shape(before: Seq<WidgetNode>, after: Seq<WidgetNode>) -> bool {
    &&& after.len() == before.len()
    &&& forall|i: int|
        0 <= i < before.len() ==> (#[trigger] after[i]).parent == before[i].parent
            && after[i].children == before[i].children && after[i].removed == before[i].removed
}

/// Whether the widgets of `before` have in `after` the parents that they had, and are marked
/// as removed or not as they were. There may be more widgets in `after`.
pub open spec fn same_ways_up(before: Seq<WidgetNode>, after: Seq<WidgetNode>) -> bool {
    &&& before.len() <= after.len()
    &&& forall|i: int|
        0 <= i < before.len() ==> (#[trigger] after[i]).parent == before[i].parent
            && after[i].removed == before[i].removed
}

/// Widgets whose ways to their roots stay are in the window or out of it as before.
pub proof fn lemma_same_ways_up_same_alive(
    before: Seq<WidgetNode>,
    after: Seq<WidgetNode>,
    id: int,
)
    requires
        same_ways_up(before, after),
        0 <= id < before.len(),
    ensures
        anchor(after, None, id) == anchor(before, None, id),
        alive(after, id) == alive(before, id),
    decreases id,
{
    assert(after[id].parent == before[id].parent);
    match before[id].parent {
        Some(parent) => {
            if 0 <= parent < id {
                lemma_same_ways_up_same_alive(before, after, parent as int);
            }
        },
        None => {},
    }
    let root = anchor(before, None, id);
    lemma_anchor_in_range(before, None, id);
    assert(after[root].removed == before[root].removed);
}

/// Widgets that stay in their places are in the window or out of it as before.
pub proof fn lemma_same_shape_same_alive(
    before: Seq<WidgetNode>,
    after: Seq<WidgetNode>,
    id: int,
)
    requires
        same_shape(before, after),
    ensures
        alive(after, id) == alive(before, id),
{
    if 0 <= id < before.len() {
        lemma_same_ways_up_same_alive(before, after, id);
    }
}

/// Going up from a widget ends at a widget.
pub proof fn lemma_anchor_in_range(nodes: Seq<WidgetNode>, top: Option<i32>, id: int)
    requires
        0 <= id < nodes.len(),
    ensures
        0 <= anchor(nodes, top, id) <= id,
    decreases id,
{
    if nodes[id].parent != top {
        match nodes[id].parent {
            Some(parent) => {
                if 0 <= parent < id {
                    lemma_anchor_in_range(nodes, top, parent as int);
                }
            },
            None => {},
        }
    }
}

/// Widgets that stay in their places stay a forest.
pub proof fn lemma_same_shape_is_forest(before: Seq<WidgetNode>, after: Seq<WidgetNode>)
    requires
        is_forest(before),
        same_shape(before, after),
    ensures
        is_forest(after),
{
    assert(parent_links_hold(after)) by {
        assert forall|i: int| 0 <= i < after.len() implies match (#[trigger] after[i]).parent {
            Some(p) => 0 <= p < i && after[p as int].children.contains(i as i32),
            None => true,
        } by {
            assert(after[i].parent == before[i].parent);
            match before[i].parent {
                Some(p) => {
                    assert(after[p as int].children == before[p as int].children);
                },
                None => {},
            }
        }
    }
    assert(child_links_hold(after)) by {
        assert forall|i: int, k: int|
            0 <= i < after.len() && 0 <= k < after[i].children.len() implies {
            let c = #[trigger] after[i].children[k];
            i < c < after.len() && after[c as int].parent == Some(i as i32)
        } by {
            assert(after[i].children == before[i].children);
            let c = before[i].children[k];
            assert(after[c as int].parent == before[c as int].parent);
        }
    }
    assert(children_ascend(after)) by {
        assert forall|i: int, j: int, k: int|
            0 <= i < after.len() && 0 <= j < k < after[i].children.len()
                implies #[trigger] after[i].children[j]
            < #[trigger] after[i].children[k] by {
            assert(after[i].children == before[i].children);
            assert(before[i].children[j] < before[i].children[k]);
        }
    }
    assert(removed_are_roots(after)) by {
        assert forall|i: int| 0 <= i < after.len() && (#[trigger] after[i]).removed
            implies after[i].parent is None by {
            assert(before[i].removed);
        }
    }
}

/// Whether the forest `before` becomes `after` when the widget `id` is taken out of the
/// window with all that lies within it: the widget leaves the children of its parent, has no
/// parent any more, and is marked as removed. Nothing else changes.
pub open spec fn detached(before: Seq<WidgetNode>, id: int, after: Seq<WidgetNode>) -> bool {
    &&& after.len() == before.len()
    &&& after[id].parent is None
    &&& after[id].removed
    &&& after[id].children == before[id].children
    &&& after[id].settings == before[id].settings
    &&& forall|i: int|
        0 <= i < before.len() && i != id && Some(i as i32) != before[id].parent
            ==> #[trigger] after[i] == before[i]
    &&& match before[id].parent {
        Some(parent) => {
            let around = before[parent as int];
            &&& after[parent as int].parent == around.parent
            &&& after[parent as int].removed == around.removed
            &&& after[parent as int].settings == around.settings
            &&& after[parent as int].children == around.children.remove(
                around.children.index_of(id as i32),
            )
        },
        None => true,
    }
}

/// Whether `after` has the widgets of `before` in the same places, with the same origins and
/// extents.
pub open spec fn same_geometry(before: Seq<WidgetNode>, after: Seq<WidgetNode>) -> bool {
    &&& same_shape(before, after)
    &&& forall|i: int|
        0 <= i < before.len() ==> node_origin(#[trigger] after[i]) == node_origin(before[i])
            && node_size(after[i]) == node_size(before[i])
}

/// Where a widget's container starts depends on nothing but places and origins.
pub proof fn lemma_same_geometry_same_offsets(
    before: Seq<WidgetNode>,
    after: Seq<WidgetNode>,
    id: int,
)
    requires
        same_geometry(before, after),
    ensures
        offset_x(after, id) == offset_x(before, id),
        offset_y(after, id) == offset_y(before, id),
    decreases id,
{
    if 0 <= id < before.len() {
        assert(after[id].parent == before[id].parent);
        match before[id].parent {
            Some(parent) => {
                if 0 <= parent < id {
                    assert(node_origin(after[parent as int]) == node_origin(
                        before[parent as int],
                    ));
                    lemma_same_geometry_same_offsets(before, after, parent as int);
                }
            },
            None => {},
        }
    }
}

} // verus!
