use crate::engine::forest::{
    alive, anchor, child_links_hold, children_ascend, detached, draw_order, hit_sequence,
    hits_in_children, hits_in_roots, hits_in_subtree, is_forest, is_live_root,
    lemma_anchor_in_range, lies_within, node_contains, node_origin, offset_x, offset_y,
    order_of_children, order_of_roots, order_of_subtree, parent_links_hold, removed_are_roots,
    WidgetNode,
};
use crate::engine::point::Point;
use vstd::prelude::*;
use vstd::seq_lib::lemma_no_dup_in_concat;

verus! {

/// The widget that is reached from the widget `id` by going to the parent `steps` times, if
/// the way does not end before.
pub open spec fn ancestor(nodes: Seq<WidgetNode>, id: int, steps: nat) -> Option<int>
    decreases steps,
{
    if steps == 0 {
        if 0 <= id < nodes.len() {
            Some(id)
        } else {
            None
        }
    } else {
        match ancestor(nodes, id, (steps - 1) as nat) {
            Some(below) => match nodes[below].parent {
                Some(parent) => Some(parent as int),
                None => None,
            },
            None => None,
        }
    }
}

/// Each step to a parent leads to a smaller id.
pub proof fn lemma_ancestors_descend(nodes: Seq<WidgetNode>, id: int, steps: nat)
    requires
        is_forest(nodes),
        0 <= id < nodes.len(),
    ensures
        match ancestor(nodes, id, steps) {
            Some(above) => 0 <= above <= id - steps,
            None => true,
        },
    decreases steps,
{
    if steps > 0 {
        lemma_ancestors_descend(nodes, id, (steps - 1) as nat);
        match ancestor(nodes, id, (steps - 1) as nat) {
            Some(below) => {
                assert(nodes[below].parent is Some ==> nodes[below].parent->0 < below);
            },
            None => {},
        }
    }
}

/// A forest has no cycle: no way of one or more steps from child to parent leads from a
/// widget back to itself.
pub proof fn lemma_no_cycle(nodes: Seq<WidgetNode>, id: int, steps: nat)
    requires
        is_forest(nodes),
        0 <= id < nodes.len(),
        steps >= 1,
    ensures
        ancestor(nodes, id, steps) != Some(id),
{
    lemma_ancestors_descend(nodes, id, steps);
}

/// A widget with a parent is listed as a child by that parent, at exactly one place of the
/// parent's list, and by no other widget.
pub proof fn lemma_child_listed_once(nodes: Seq<WidgetNode>, child: int) -> (place: int)
    requires
        is_forest(nodes),
        0 <= child < nodes.len(),
        nodes[child].parent is Some,
    ensures
        0 <= nodes[child].parent->0 < nodes.len(),
        0 <= place < nodes[nodes[child].parent->0 as int].children.len(),
        nodes[nodes[child].parent->0 as int].children[place] == child,
        forall|i: int, k: int|
            0 <= i < nodes.len() && 0 <= k < nodes[i].children.len()
                && #[trigger] nodes[i].children[k]
                == child ==> i == nodes[child].parent->0 && k == place,
{
    let parent = nodes[child].parent->0 as int;
    let listed = nodes[parent].children;
    assert(listed.contains(child as i32));
    let place = choose|k: int| 0 <= k < listed.len() && listed[k] == child as i32;
    assert forall|i: int, k: int|
        0 <= i < nodes.len() && 0 <= k < nodes[i].children.len() && #[trigger] nodes[i].children[k]
            == child implies i == parent && k == place by {
        let c = nodes[i].children[k];
        assert(nodes[c as int].parent == Some(i as i32));
        if k < place {
            assert(nodes[i].children[k] < nodes[i].children[place]);
        } else if place < k {
            assert(nodes[i].children[place] < nodes[i].children[k]);
        }
    }
    place
}

/// A root is listed as a child by no widget.
pub proof fn lemma_root_not_listed(nodes: Seq<WidgetNode>, root: int)
    requires
        is_forest(nodes),
        0 <= root < nodes.len(),
        nodes[root].parent is None,
    ensures
        forall|i: int, k: int|
            0 <= i < nodes.len() && 0 <= k < nodes[i].children.len()
                ==> #[trigger] nodes[i].children[k]
                != root,
{
    assert forall|i: int, k: int|
        0 <= i < nodes.len() && 0 <= k < nodes[i].children.len()
            implies #[trigger] nodes[i].children[k]
        != root by {
        let c = nodes[i].children[k];
        assert(nodes[c as int].parent == Some(i as i32));
    }
}

/// A forest from which a widget was taken out with all that lies within it is a forest.
pub proof fn lemma_detached_is_forest(before: Seq<WidgetNode>, id: int, after: Seq<WidgetNode>)
    requires
        is_forest(before),
        0 <= id < before.len(),
        detached(before, id, after),
    ensures
        is_forest(after),
{
    let up = before[id].parent;
    let place = if up is Some {
        lemma_child_listed_once(before, id)
    } else {
        0
    };
    if up is Some {
        let listed = before[up->0 as int].children;
        assert(listed.index_of(id as i32) == place) by {
            let found = listed.index_of(id as i32);
            assert(listed[place] == id as i32);
            assert(0 <= found < listed.len() && listed[found] == id as i32);
        }
        assert(after[up->0 as int].children == listed.remove(place));
    }
    assert forall|i: int| 0 <= i < before.len() && i != id implies (#[trigger] after[i]).parent
        == before[i].parent && after[i].removed == before[i].removed by {
        if Some(i as i32) != up {
            assert(after[i] == before[i]);
        }
    }
    assert(parent_links_hold(after)) by {
        assert forall|i: int| 0 <= i < after.len() implies match (#[trigger] after[i]).parent {
            Some(p) => 0 <= p < i && after[p as int].children.contains(i as i32),
            None => true,
        } by {
            if i != id {
                match before[i].parent {
                    Some(p) => {
                        let listed = before[p as int].children;
                        let at = choose|at: int| 0 <= at < listed.len() && listed[at] == i as i32;
                        if Some(p) == up {
                            let left = listed.remove(place);
                            if at < place {
                                assert(left[at] == i as i32);
                            } else {
                                assert(at != place);
                                assert(left[at - 1] == i as i32);
                            }
                        } else if p == id {
                            assert(after[id].children[at] == i as i32);
                        } else {
                            assert(after[p as int] == before[p as int]);
                            assert(after[p as int].children[at] == i as i32);
                        }
                    },
                    None => {},
                }
            }
        }
    }
    assert(child_links_hold(after)) by {
        assert forall|i: int, k: int|
            0 <= i < after.len() && 0 <= k < after[i].children.len() implies {
            let c = #[trigger] after[i].children[k];
            i < c < after.len() && after[c as int].parent == Some(i as i32)
        } by {
            if Some(i as i32) == up {
                let listed = before[i].children;
                let from = if k < place {
                    k
                } else {
                    k + 1
                };
                assert(after[i].children[k] == listed[from]);
                let c = listed[from];
                assert(i < c < before.len() && before[c as int].parent == Some(i as i32));
                if from < place {
                    assert(listed[from] < listed[place]);
                } else {
                    assert(listed[place] < listed[from]);
                }
                assert(c != id);
            } else {
                assert(after[i].children == before[i].children);
                let c = before[i].children[k];
                assert(i < c < before.len() && before[c as int].parent == Some(i as i32));
                assert(c != id);
            }
        }
    }
    assert(children_ascend(after)) by {
        assert forall|i: int, j: int, k: int|
            0 <= i < after.len() && 0 <= j < k < after[i].children.len()
                implies #[trigger] after[i].children[j]
            < #[trigger] after[i].children[k] by {
            if Some(i as i32) == up {
                let listed = before[i].children;
                let from_j = if j < place {
                    j
                } else {
                    j + 1
                };
                let from_k = if k < place {
                    k
                } else {
                    k + 1
                };
                assert(after[i].children[j] == listed[from_j]);
                assert(after[i].children[k] == listed[from_k]);
                assert(listed[from_j] < listed[from_k]);
            } else {
                assert(after[i].children == before[i].children);
                assert(before[i].children[j] < before[i].children[k]);
            }
        }
    }
    assert(removed_are_roots(after)) by {
        assert forall|i: int| 0 <= i < after.len() && (#[trigger] after[i]).removed
            implies after[i].parent is None by {
            if i != id {
                assert(before[i].removed);
            }
        }
    }
}

/// After a widget was taken out with all that lies within it, the window has the widgets
/// that it had, but for that widget and what lay within it.
pub proof fn lemma_detached_alive(
    before: Seq<WidgetNode>,
    id: int,
    after: Seq<WidgetNode>,
    other: int,
)
    requires
        is_forest(before),
        alive(before, id),
        detached(before, id, after),
    ensures
        alive(after, other) <==> alive(before, other) && !lies_within(before, id, other),
    decreases other,
{
    if 0 <= other < before.len() && other != id {
        assert(after[other].parent == before[other].parent && after[other].removed
            == before[other].removed) by {
            if Some(other as i32) != before[id].parent {
                assert(after[other] == before[other]);
            }
        }
        match before[other].parent {
            Some(parent) => {
                assert(0 <= parent < other);
                lemma_detached_alive(before, id, after, parent as int);
            },
            None => {},
        }
    }
}

/// What lies within a widget has an id that is no smaller than the widget's.
pub proof fn lemma_within_is_later(nodes: Seq<WidgetNode>, outer: int, inner: int)
    requires
        lies_within(nodes, outer, inner),
    ensures
        outer <= inner < nodes.len(),
    decreases inner,
{
    if inner != outer {
        lemma_within_is_later(nodes, outer, nodes[inner].parent->0 as int);
    }
}

/// What lies within a child lies within the child's parent.
pub proof fn lemma_within_parent(nodes: Seq<WidgetNode>, child: int, inner: int)
    requires
        is_forest(nodes),
        0 <= child < nodes.len(),
        nodes[child].parent is Some,
        lies_within(nodes, child, inner),
    ensures
        lies_within(nodes, nodes[child].parent->0 as int, inner),
    decreases inner,
{
    let parent = nodes[child].parent->0 as int;
    if inner == child {
        assert(0 <= parent < child);
        assert(lies_within(nodes, parent, parent));
    } else {
        lemma_within_parent(nodes, child, nodes[inner].parent->0 as int);
    }
}

/// Going up from what lies within a widget whose parent is `top` ends at that widget.
pub proof fn lemma_anchor_of_within(
    nodes: Seq<WidgetNode>,
    top: Option<i32>,
    outer: int,
    inner: int,
)
    requires
        is_forest(nodes),
        0 <= outer < nodes.len(),
        nodes[outer].parent == top,
        lies_within(nodes, outer, inner),
    ensures
        anchor(nodes, top, inner) == outer,
    decreases inner,
{
    if inner != outer {
        let parent = nodes[inner].parent->0 as int;
        lemma_within_is_later(nodes, outer, parent);
        assert(nodes[inner].parent != top) by {
            if top is Some {
                assert(top->0 < outer);
            }
        }
        lemma_anchor_of_within(nodes, top, outer, parent);
    }
}

/// Every member of a widget's run in the order of drawing is the widget or lies within it.
pub proof fn lemma_subtree_members(nodes: Seq<WidgetNode>, id: int, at: int)
    requires
        is_forest(nodes),
        0 <= id < nodes.len(),
        0 <= at < order_of_subtree(nodes, id).len(),
    ensures
        lies_within(nodes, id, order_of_subtree(nodes, id)[at] as int),
    decreases nodes.len() - id, 1int, 0int,
{
    let count = nodes[id].children.len() as int;
    let below = order_of_children(nodes, id, count);
    assert(order_of_subtree(nodes, id) == seq![id as i32] + below);
    if at > 0 {
        assert(order_of_subtree(nodes, id)[at] == below[at - 1]);
        let k = lemma_children_members(nodes, id, count, at - 1);
        let child = nodes[id].children[k] as int;
        lemma_within_parent(nodes, child, below[at - 1] as int);
    } else {
        assert(order_of_subtree(nodes, id)[0] == id as i32);
    }
}

/// Every member of the run of a widget's first `count` children lies within one of them; the
/// result is that child's place in the widget's list.
pub proof fn lemma_children_members(nodes: Seq<WidgetNode>, id: int, count: int, at: int) -> (k:
    int)
    requires
        is_forest(nodes),
        0 <= id < nodes.len(),
        0 <= count <= nodes[id].children.len(),
        0 <= at < order_of_children(nodes, id, count).len(),
    ensures
        0 <= k < count,
        lies_within(
            nodes,
            nodes[id].children[k] as int,
            order_of_children(nodes, id, count)[at] as int,
        ),
    decreases nodes.len() - id, 0int, count,
{
    let child = nodes[id].children[count - 1] as int;
    assert(id < child < nodes.len());
    let earlier = order_of_children(nodes, id, count - 1);
    if at < earlier.len() {
        lemma_children_members(nodes, id, count - 1, at)
    } else {
        lemma_subtree_members(nodes, child, at - earlier.len());
        count - 1
    }
}

/// Every member of the run of the roots among the first `count` widgets lies within one of
/// those roots; the result is that root.
pub proof fn lemma_roots_members(nodes: Seq<WidgetNode>, count: int, at: int) -> (root: int)
    requires
        is_forest(nodes),
        0 <= count <= nodes.len(),
        0 <= at < order_of_roots(nodes, count).len(),
    ensures
        0 <= root < count,
        is_live_root(nodes[root]),
        lies_within(nodes, root, order_of_roots(nodes, count)[at] as int),
    decreases count,
{
    let earlier = order_of_roots(nodes, count - 1);
    if at < earlier.len() {
        lemma_roots_members(nodes, count - 1, at)
    } else {
        lemma_subtree_members(nodes, count - 1, at - earlier.len());
        count - 1
    }
}

/// No widget occurs twice in a widget's run in the order of drawing.
pub proof fn lemma_subtree_no_duplicates(nodes: Seq<WidgetNode>, id: int)
    requires
        is_forest(nodes),
        0 <= id < nodes.len(),
    ensures
        order_of_subtree(nodes, id).no_duplicates(),
    decreases nodes.len() - id, 1int, 0int,
{
    let count = nodes[id].children.len() as int;
    let own = seq![id as i32];
    let below = order_of_children(nodes, id, count);
    lemma_children_no_duplicates(nodes, id, count);
    assert forall|i: int, j: int| 0 <= i < own.len() && 0 <= j < below.len() implies own[i]
        != below[j] by {
        let k = lemma_children_members(nodes, id, count, j);
        lemma_within_is_later(nodes, nodes[id].children[k] as int, below[j] as int);
    }
    lemma_no_dup_in_concat(own, below);
}

/// No widget occurs twice in the run of a widget's first `count` children.
pub proof fn lemma_children_no_duplicates(nodes: Seq<WidgetNode>, id: int, count: int)
    requires
        is_forest(nodes),
        0 <= id < nodes.len(),
        0 <= count <= nodes[id].children.len(),
    ensures
        order_of_children(nodes, id, count).no_duplicates(),
    decreases nodes.len() - id, 0int, count,
{
    if count > 0 {
        let child = nodes[id].children[count - 1] as int;
        assert(id < child < nodes.len());
        let earlier = order_of_children(nodes, id, count - 1);
        let last = order_of_subtree(nodes, child);
        lemma_children_no_duplicates(nodes, id, count - 1);
        lemma_subtree_no_duplicates(nodes, child);
        assert forall|i: int, j: int| 0 <= i < earlier.len() && 0 <= j < last.len()
            implies earlier[i]
            != last[j] by {
            let k = lemma_children_members(nodes, id, count - 1, i);
            let other = nodes[id].children[k] as int;
            assert(nodes[id].children[k] < nodes[id].children[count - 1]);
            lemma_subtree_members(nodes, child, j);
            lemma_anchor_of_within(nodes, Some(id as i32), other, earlier[i] as int);
            lemma_anchor_of_within(nodes, Some(id as i32), child, last[j] as int);
        }
        lemma_no_dup_in_concat(earlier, last);
    }
}

/// No widget occurs twice in the run of the roots among the first `count` widgets.
pub proof fn lemma_roots_no_duplicates(nodes: Seq<WidgetNode>, count: int)
    requires
        is_forest(nodes),
        0 <= count <= nodes.len(),
    ensures
        order_of_roots(nodes, count).no_duplicates(),
    decreases count,
{
    if count > 0 {
        let earlier = order_of_roots(nodes, count - 1);
        lemma_roots_no_duplicates(nodes, count - 1);
        if is_live_root(nodes[count - 1]) {
            let last = order_of_subtree(nodes, count - 1);
            lemma_subtree_no_duplicates(nodes, count - 1);
            assert forall|i: int, j: int|
                0 <= i < earlier.len() && 0 <= j < last.len() implies earlier[i] != last[j] by {
                let root = lemma_roots_members(nodes, count - 1, i);
                lemma_subtree_members(nodes, count - 1, j);
                lemma_anchor_of_within(nodes, None, root, earlier[i] as int);
                lemma_anchor_of_within(nodes, None, count - 1, last[j] as int);
            }
            lemma_no_dup_in_concat(earlier, last);
        } else {
            assert(order_of_roots(nodes, count) =~= earlier);
        }
    }
}

/// The run of a widget's first `count` children holds the whole run of each of them.
pub proof fn lemma_children_hold_child(
    nodes: Seq<WidgetNode>,
    id: int,
    count: int,
    k: int,
    widget: i32,
)
    requires
        is_forest(nodes),
        0 <= id < nodes.len(),
        0 <= k < count <= nodes[id].children.len(),
        order_of_subtree(nodes, nodes[id].children[k] as int).contains(widget),
    ensures
        order_of_children(nodes, id, count).contains(widget),
    decreases count,
{
    let child = nodes[id].children[count - 1] as int;
    assert(id < child < nodes.len());
    let earlier = order_of_children(nodes, id, count - 1);
    let last = order_of_subtree(nodes, child);
    let all = order_of_children(nodes, id, count);
    assert(all == earlier + last);
    if k == count - 1 {
        let at = choose|at: int| 0 <= at < last.len() && last[at] == widget;
        assert(all[earlier.len() + at] == widget);
    } else {
        lemma_children_hold_child(nodes, id, count - 1, k, widget);
        let at = choose|at: int| 0 <= at < earlier.len() && earlier[at] == widget;
        assert(all[at] == widget);
    }
}

/// The run of a root's tree holds the whole run of every widget within the tree.
pub proof fn lemma_root_holds_subtree(nodes: Seq<WidgetNode>, id: int, widget: i32)
    requires
        is_forest(nodes),
        0 <= id < nodes.len(),
        order_of_subtree(nodes, id).contains(widget),
    ensures
        0 <= anchor(nodes, None, id) < nodes.len(),
        nodes[anchor(nodes, None, id)].parent is None,
        order_of_subtree(nodes, anchor(nodes, None, id)).contains(widget),
    decreases id,
{
    if nodes[id].parent is Some {
        let parent = nodes[id].parent->0 as int;
        let place = lemma_child_listed_once(nodes, id);
        let count = nodes[parent].children.len() as int;
        lemma_children_hold_child(nodes, parent, count, place, widget);
        let below = order_of_children(nodes, parent, count);
        let whole = order_of_subtree(nodes, parent);
        let at = choose|at: int| 0 <= at < below.len() && below[at] == widget;
        assert(whole[at + 1] == widget);
        lemma_root_holds_subtree(nodes, parent, widget);
    }
}

/// The run of the roots among the first `count` widgets holds the whole run of each of them.
pub proof fn lemma_roots_hold_root(nodes: Seq<WidgetNode>, count: int, root: int, widget: i32)
    requires
        is_forest(nodes),
        0 <= root < count <= nodes.len(),
        is_live_root(nodes[root]),
        order_of_subtree(nodes, root).contains(widget),
    ensures
        order_of_roots(nodes, count).contains(widget),
    decreases count,
{
    let earlier = order_of_roots(nodes, count - 1);
    let all = order_of_roots(nodes, count);
    if root == count - 1 {
        let last = order_of_subtree(nodes, root);
        let at = choose|at: int| 0 <= at < last.len() && last[at] == widget;
        assert(all[earlier.len() + at] == widget);
    } else {
        lemma_roots_hold_root(nodes, count - 1, root, widget);
        let at = choose|at: int| 0 <= at < earlier.len() && earlier[at] == widget;
        assert(all[at] == widget);
    }
}

/// The order of drawing holds every widget of the window, each once, and nothing else.
pub proof fn lemma_draw_order_is_all(nodes: Seq<WidgetNode>)
    requires
        is_forest(nodes),
    ensures
        draw_order(nodes).no_duplicates(),
        forall|id: int| alive(nodes, id) ==> #[trigger] draw_order(nodes).contains(id as i32),
        forall|at: int|
            0 <= at < draw_order(nodes).len() ==> alive(
                nodes,
                #[trigger] draw_order(nodes)[at] as int,
            ),
{
    let order = draw_order(nodes);
    lemma_roots_no_duplicates(nodes, nodes.len() as int);
    assert forall|id: int| alive(nodes, id) implies #[trigger] order.contains(id as i32) by {
        assert(order_of_subtree(nodes, id)[0] == id as i32);
        lemma_root_holds_subtree(nodes, id, id as i32);
        lemma_roots_hold_root(nodes, nodes.len() as int, anchor(nodes, None, id), id as i32);
    }
    assert forall|at: int| 0 <= at < order.len() implies alive(
        nodes,
        #[trigger] order[at] as int,
    ) by {
        let root = lemma_roots_members(nodes, nodes.len() as int, at);
        lemma_within_is_later(nodes, root, order[at] as int);
        lemma_anchor_of_within(nodes, None, root, order[at] as int);
    }
}

/// A widget's run in the order of drawing is never empty: it begins with the widget.
pub proof fn lemma_subtree_begins_with_root(nodes: Seq<WidgetNode>, id: int)
    requires
        0 <= id < nodes.len(),
    ensures
        order_of_subtree(nodes, id).len() >= 1,
        order_of_subtree(nodes, id)[0] == id as i32,
{
}

/// The run of a widget's first `count` children begins with the run of its first `fewer`
/// children, and goes on with the run of the next child.
pub proof fn lemma_children_run_grows(nodes: Seq<WidgetNode>, id: int, count: int, fewer: int)
    requires
        is_forest(nodes),
        0 <= id < nodes.len(),
        0 <= fewer < count <= nodes[id].children.len(),
    ensures
        order_of_children(nodes, id, fewer).len() + order_of_subtree(
            nodes,
            nodes[id].children[fewer] as int,
        ).len() <= order_of_children(nodes, id, count).len(),
        order_of_children(nodes, id, count).subrange(
            0,
            order_of_children(nodes, id, fewer).len() as int,
        ) == order_of_children(nodes, id, fewer),
        order_of_children(nodes, id, count).subrange(
            order_of_children(nodes, id, fewer).len() as int,
            order_of_children(nodes, id, fewer).len() as int + order_of_subtree(
                nodes,
                nodes[id].children[fewer] as int,
            ).len() as int,
        ) == order_of_subtree(nodes, nodes[id].children[fewer] as int),
    decreases count,
{
    let child = nodes[id].children[count - 1] as int;
    assert(id < child < nodes.len());
    let earlier = order_of_children(nodes, id, count - 1);
    let last = order_of_subtree(nodes, child);
    let all = order_of_children(nodes, id, count);
    assert(all == earlier + last);
    let head = order_of_children(nodes, id, fewer);
    if fewer == count - 1 {
        assert(all.subrange(0, head.len() as int) =~= head);
        assert(all.subrange(head.len() as int, head.len() as int + last.len() as int) =~= last);
    } else {
        lemma_children_run_grows(nodes, id, count - 1, fewer);
        let next = order_of_subtree(nodes, nodes[id].children[fewer] as int);
        assert(all.subrange(0, head.len() as int) =~= earlier.subrange(0, head.len() as int));
        assert(all.subrange(head.len() as int, head.len() as int + next.len() as int)
            =~= earlier.subrange(head.len() as int, head.len() as int + next.len() as int));
    }
}

/// The run of the roots among the first `count` widgets begins with the run of the roots
/// among the first `fewer`, and goes on with the run of the root `fewer`.
pub proof fn lemma_roots_run_grows(nodes: Seq<WidgetNode>, count: int, fewer: int)
    requires
        is_forest(nodes),
        0 <= fewer < count <= nodes.len(),
        is_live_root(nodes[fewer]),
    ensures
        order_of_roots(nodes, fewer).len() + order_of_subtree(nodes, fewer).len()
            <= order_of_roots(nodes, count).len(),
        order_of_roots(nodes, count).subrange(0, order_of_roots(nodes, fewer).len() as int)
            == order_of_roots(nodes, fewer),
        order_of_roots(nodes, count).subrange(
            order_of_roots(nodes, fewer).len() as int,
            order_of_roots(nodes, fewer).len() as int + order_of_subtree(nodes, fewer).len() as int,
        ) == order_of_subtree(nodes, fewer),
    decreases count,
{
    let earlier = order_of_roots(nodes, count - 1);
    let all = order_of_roots(nodes, count);
    let head = order_of_roots(nodes, fewer);
    let next = order_of_subtree(nodes, fewer);
    if fewer == count - 1 {
        assert(all == earlier + next);
        assert(all.subrange(0, head.len() as int) =~= head);
        assert(all.subrange(head.len() as int, head.len() as int + next.len() as int) =~= next);
    } else {
        lemma_roots_run_grows(nodes, count - 1, fewer);
        let last = if is_live_root(nodes[count - 1]) {
            order_of_subtree(nodes, count - 1)
        } else {
            Seq::<i32>::empty()
        };
        assert(all == earlier + last);
        assert(all.subrange(0, head.len() as int) =~= earlier.subrange(0, head.len() as int));
        assert(all.subrange(head.len() as int, head.len() as int + next.len() as int)
            =~= earlier.subrange(head.len() as int, head.len() as int + next.len() as int));
    }
}

/// Where the run of the widget `id` begins in the order of drawing, which is where the widget
/// itself stands: a root behind the runs of the roots before it, a child behind its parent
/// and the runs of the children before it.
pub open spec fn place_in_order(nodes: Seq<WidgetNode>, id: int) -> int
    decreases id,
{
    if 0 <= id < nodes.len() {
        match nodes[id].parent {
            Some(parent) => if 0 <= parent < id {
                place_in_order(nodes, parent as int) + 1 + order_of_children(
                    nodes,
                    parent as int,
                    nodes[parent as int].children.index_of(id as i32),
                ).len()
            } else {
                0
            },
            None => order_of_roots(nodes, id).len() as int,
        }
    } else {
        0
    }
}

/// The run of every widget of the window stands in the order of drawing as one piece, at the
/// widget's place.
pub proof fn lemma_subtree_is_one_piece(nodes: Seq<WidgetNode>, id: int)
    requires
        is_forest(nodes),
        alive(nodes, id),
    ensures
        0 <= place_in_order(nodes, id),
        place_in_order(nodes, id) + order_of_subtree(nodes, id).len() <= draw_order(nodes).len(),
        draw_order(nodes).subrange(
            place_in_order(nodes, id),
            place_in_order(nodes, id) + order_of_subtree(nodes, id).len() as int,
        ) == order_of_subtree(nodes, id),
        draw_order(nodes)[place_in_order(nodes, id)] == id as i32,
    decreases id,
{
    let order = draw_order(nodes);
    let own = order_of_subtree(nodes, id);
    lemma_subtree_begins_with_root(nodes, id);
    match nodes[id].parent {
        Some(parent_id) => {
            let parent = parent_id as int;
            let place = lemma_child_listed_once(nodes, id);
            let listed = nodes[parent].children;
            assert(listed.index_of(id as i32) == place) by {
                assert(listed[place] == id as i32);
                let found = listed.index_of(id as i32);
                assert(0 <= found < listed.len() && listed[found] == id as i32);
            }
            lemma_subtree_is_one_piece(nodes, parent);
            lemma_children_run_grows(nodes, parent, listed.len() as int, place);
            let around = order_of_subtree(nodes, parent);
            let below = order_of_children(nodes, parent, listed.len() as int);
            let before = order_of_children(nodes, parent, place);
            assert(around == seq![parent as i32] + below);
            let from = place_in_order(nodes, parent);
            let skip: int = 1 + before.len() as int;
            let size: int = own.len() as int;
            assert(around.subrange(skip, skip + size) =~= below.subrange(
                skip - 1,
                skip - 1 + size,
            ));
            assert(order.subrange(from + skip, from + skip + size) =~= order.subrange(
                from,
                from + around.len() as int,
            ).subrange(skip, skip + size));
        },
        None => {
            lemma_roots_run_grows(nodes, nodes.len() as int, id);
        },
    }
    let at = place_in_order(nodes, id);
    assert(order.subrange(at, at + own.len() as int)[0] == order[at]);
}

/// In the order of drawing every widget of the window stands at its place and nowhere else.
pub proof fn lemma_place_in_order(nodes: Seq<WidgetNode>, id: int)
    requires
        is_forest(nodes),
        alive(nodes, id),
    ensures
        draw_order(nodes).index_of(id as i32) == place_in_order(nodes, id),
        0 <= place_in_order(nodes, id) < draw_order(nodes).len(),
        draw_order(nodes)[place_in_order(nodes, id)] == id as i32,
{
    let order = draw_order(nodes);
    lemma_subtree_is_one_piece(nodes, id);
    lemma_subtree_begins_with_root(nodes, id);
    lemma_draw_order_is_all(nodes);
    let found = order.index_of(id as i32);
    assert(order[place_in_order(nodes, id)] == id as i32);
    assert(0 <= found < order.len() && order[found] == id as i32);
}

/// A parent is drawn before its child.
pub proof fn lemma_parent_drawn_before_child(nodes: Seq<WidgetNode>, child: int)
    requires
        is_forest(nodes),
        alive(nodes, child),
        nodes[child].parent is Some,
    ensures
        draw_order(nodes).index_of(nodes[child].parent->0) < draw_order(nodes).index_of(
            child as i32,
        ),
{
    let parent = nodes[child].parent->0 as int;
    assert(0 <= parent < child);
    lemma_place_in_order(nodes, child);
    lemma_place_in_order(nodes, parent);
}

/// The children of one parent are drawn in the order in which they were inserted.
pub proof fn lemma_siblings_drawn_as_inserted(
    nodes: Seq<WidgetNode>,
    parent: int,
    first: int,
    second: int,
)
    requires
        is_forest(nodes),
        alive(nodes, parent),
        0 <= first < second < nodes[parent].children.len(),
    ensures
        draw_order(nodes).index_of(nodes[parent].children[first]) < draw_order(nodes).index_of(
            nodes[parent].children[second],
        ),
{
    let listed = nodes[parent].children;
    let one = listed[first] as int;
    let other = listed[second] as int;
    assert(parent < one < nodes.len() && nodes[one].parent == Some(parent as i32));
    assert(parent < other < nodes.len() && nodes[other].parent == Some(parent as i32));
    lemma_place_in_order(nodes, one);
    lemma_place_in_order(nodes, other);
    let place_one = lemma_child_listed_once(nodes, one);
    let place_other = lemma_child_listed_once(nodes, other);
    assert(place_one == first && place_other == second);
    assert(listed.index_of(one as i32) == first) by {
        let found = listed.index_of(one as i32);
        assert(listed[first] == one as i32);
        assert(0 <= found < listed.len() && listed[found] == one as i32);
    }
    assert(listed.index_of(other as i32) == second) by {
        let found = listed.index_of(other as i32);
        assert(listed[second] == other as i32);
        assert(0 <= found < listed.len() && listed[found] == other as i32);
    }
    lemma_children_run_grows(nodes, parent, second, first);
    lemma_subtree_begins_with_root(nodes, one);
}

/// The roots are drawn in the order in which they were inserted.
pub proof fn lemma_roots_drawn_as_inserted(nodes: Seq<WidgetNode>, first: int, second: int)
    requires
        is_forest(nodes),
        0 <= first < second < nodes.len(),
        is_live_root(nodes[first]),
        is_live_root(nodes[second]),
    ensures
        draw_order(nodes).index_of(first as i32) < draw_order(nodes).index_of(second as i32),
{
    lemma_place_in_order(nodes, first);
    lemma_place_in_order(nodes, second);
    lemma_roots_run_grows(nodes, second, first);
    lemma_subtree_begins_with_root(nodes, first);
}

/// Whether `id` names a widget of the window whose bounds hold the position `(x, y)` of the
/// window's space.
pub open spec fn holds_point(nodes: Seq<WidgetNode>, id: i32, x: int, y: int) -> bool {
    alive(nodes, id as int) && node_contains(
        nodes[id as int],
        x - offset_x(nodes, id as int),
        y - offset_y(nodes, id as int),
    )
}

/// The test that keeps the widgets whose bounds hold the position `(x, y)` of the window's
/// space.
pub open spec fn under_point(nodes: Seq<WidgetNode>, x: int, y: int) -> spec_fn(i32) -> bool {
    |id: i32| holds_point(nodes, id, x, y)
}

/// Turning a run made of two runs around turns both around and swaps them.
pub proof fn lemma_reverse_of_two(first: Seq<i32>, second: Seq<i32>)
    ensures
        (first + second).reverse() == second.reverse() + first.reverse(),
{
    assert((first + second).reverse() =~= second.reverse() + first.reverse());
}

/// A single widget passes the test or leaves nothing.
pub proof fn lemma_filter_of_one(id: i32, test: spec_fn(i32) -> bool)
    ensures
        seq![id].filter(test) == if test(id) {
            seq![id]
        } else {
            Seq::<i32>::empty()
        },
{
    reveal(Seq::filter);
    let none = Seq::<i32>::empty();
    assert(seq![id].drop_last() =~= none);
    assert(none.filter(test) =~= none);
    assert(none.push(id) =~= seq![id]);
}

/// The widgets of a tree under a position are the tree's run in the order of drawing, turned
/// around, without the widgets whose bounds do not hold the position.
pub proof fn lemma_subtree_hits(nodes: Seq<WidgetNode>, id: int, x: int, y: int)
    requires
        is_forest(nodes),
        alive(nodes, id),
    ensures
        hits_in_subtree(nodes, id, x - offset_x(nodes, id), y - offset_y(nodes, id))
            == order_of_subtree(nodes, id).reverse().filter(under_point(nodes, x, y)),
    decreases nodes.len() - id, 1int, 0int,
{
    let test = under_point(nodes, x, y);
    let count = nodes[id].children.len() as int;
    let below = order_of_children(nodes, id, count);
    let own = seq![id as i32];
    lemma_children_hits(nodes, id, count, x, y);
    lemma_reverse_of_two(own, below);
    assert(own.reverse() =~= own);
    Seq::filter_distributes_over_add(below.reverse(), own, test);
    lemma_filter_of_one(id as i32, test);
}

/// The same for the first `count` children of a widget.
pub proof fn lemma_children_hits(nodes: Seq<WidgetNode>, id: int, count: int, x: int, y: int)
    requires
        is_forest(nodes),
        alive(nodes, id),
        0 <= count <= nodes[id].children.len(),
    ensures
        hits_in_children(
            nodes,
            id,
            count,
            x - offset_x(nodes, id) - node_origin(nodes[id]).x,
            y - offset_y(nodes, id) - node_origin(nodes[id]).y,
        ) == order_of_children(nodes, id, count).reverse().filter(under_point(nodes, x, y)),
    decreases nodes.len() - id, 0int, count,
{
    let test = under_point(nodes, x, y);
    let none = Seq::<i32>::empty();
    if count > 0 {
        let child = nodes[id].children[count - 1] as int;
        assert(id < child < nodes.len() && nodes[child].parent == Some(id as i32));
        assert(anchor(nodes, None, child) == anchor(nodes, None, id));
        assert(offset_x(nodes, child) == offset_x(nodes, id) + node_origin(nodes[id]).x);
        assert(offset_y(nodes, child) == offset_y(nodes, id) + node_origin(nodes[id]).y);
        let earlier = order_of_children(nodes, id, count - 1);
        let last = order_of_subtree(nodes, child);
        lemma_children_hits(nodes, id, count - 1, x, y);
        lemma_subtree_hits(nodes, child, x, y);
        lemma_reverse_of_two(earlier, last);
        Seq::filter_distributes_over_add(last.reverse(), earlier.reverse(), test);
    } else {
        reveal(Seq::filter);
        assert(none.reverse() =~= none);
        assert(none.filter(test) =~= none);
    }
}

/// The same for the roots among the first `count` widgets.
pub proof fn lemma_roots_hits(nodes: Seq<WidgetNode>, count: int, x: int, y: int)
    requires
        is_forest(nodes),
        0 <= count <= nodes.len(),
    ensures
        hits_in_roots(nodes, count, x, y) == order_of_roots(nodes, count).reverse().filter(
            under_point(nodes, x, y),
        ),
    decreases count,
{
    let test = under_point(nodes, x, y);
    let none = Seq::<i32>::empty();
    if count > 0 {
        let earlier = order_of_roots(nodes, count - 1);
        lemma_roots_hits(nodes, count - 1, x, y);
        if is_live_root(nodes[count - 1]) {
            let last = order_of_subtree(nodes, count - 1);
            lemma_subtree_hits(nodes, count - 1, x, y);
            lemma_reverse_of_two(earlier, last);
            Seq::filter_distributes_over_add(last.reverse(), earlier.reverse(), test);
        } else {
            assert(order_of_roots(nodes, count) =~= earlier);
            assert(hits_in_roots(nodes, count, x, y) =~= hits_in_roots(nodes, count - 1, x, y));
        }
    } else {
        reveal(Seq::filter);
        assert(none.reverse() =~= none);
        assert(none.filter(test) =~= none);
    }
}

/// The widgets under a position are the order of drawing, turned around, without the widgets
/// whose bounds do not hold the position: what is drawn last is hit first.
pub proof fn lemma_hits_reverse_drawing(nodes: Seq<WidgetNode>, point: Point)
    requires
        is_forest(nodes),
    ensures
        hit_sequence(nodes, point) == draw_order(nodes).reverse().filter(
            under_point(nodes, point.x as int, point.y as int),
        ),
{
    lemma_roots_hits(nodes, nodes.len() as int, point.x as int, point.y as int);
}

/// The widgets under a position are exactly the widgets whose bounds hold it.
pub proof fn lemma_hits_are_widgets_under_point(nodes: Seq<WidgetNode>, point: Point)
    requires
        is_forest(nodes),
    ensures
        forall|id: i32| #[trigger]
            hit_sequence(nodes, point).contains(id) <==> holds_point(
                nodes,
                id,
                point.x as int,
                point.y as int,
            ),
{
    let test = under_point(nodes, point.x as int, point.y as int);
    let turned = draw_order(nodes).reverse();
    let hits = hit_sequence(nodes, point);
    lemma_hits_reverse_drawing(nodes, point);
    lemma_draw_order_is_all(nodes);
    assert forall|id: i32| #[trigger] hits.contains(id) <==> test(id) by {
        if hits.contains(id) {
            let at = choose|at: int| 0 <= at < hits.len() && hits[at] == id;
            turned.lemma_filter_pred(test, at);
        }
        if test(id) {
            let order = draw_order(nodes);
            assert(order.contains(id as int as i32));
            let at = choose|at: int| 0 <= at < order.len() && order[at] == id;
            assert(turned[order.len() - 1 - at] == id);
            turned.lemma_filter_contains(test, order.len() - 1 - at);
        }
    }
}

/// A run without repeats, turned around, is without repeats.
pub proof fn lemma_reverse_no_duplicates(run: Seq<i32>)
    requires
        run.no_duplicates(),
    ensures
        run.reverse().no_duplicates(),
{
    let turned = run.reverse();
    assert forall|i: int, j: int|
        0 <= i < turned.len() && 0 <= j < turned.len() && i != j implies turned[i]
        != turned[j] by {
        assert(turned[i] == run[run.len() - 1 - i]);
        assert(turned[j] == run[run.len() - 1 - j]);
    }
}

/// What a test leaves of a run without repeats is without repeats.
pub proof fn lemma_filter_no_duplicates(run: Seq<i32>, test: spec_fn(i32) -> bool)
    requires
        run.no_duplicates(),
    ensures
        run.filter(test).no_duplicates(),
    decreases run.len(),
{
    reveal(Seq::filter);
    if run.len() > 0 {
        let earlier = run.drop_last();
        let kept = earlier.filter(test);
        assert(earlier.no_duplicates()) by {
            assert forall|i: int, j: int|
                0 <= i < earlier.len() && 0 <= j < earlier.len() && i != j implies earlier[i]
                != earlier[j] by {
                assert(earlier[i] == run[i] && earlier[j] == run[j]);
            }
        }
        lemma_filter_no_duplicates(earlier, test);
        if test(run.last()) {
            assert forall|i: int| 0 <= i < kept.len() implies kept[i] != run.last() by {
                if kept[i] == run.last() {
                    assert(kept.contains(run.last()));
                    earlier.lemma_filter_contains_rev(test, run.last());
                    let at = choose|at: int| 0 <= at < earlier.len() && earlier[at] == run.last();
                    assert(run[at] == run[run.len() - 1]);
                }
            }
            assert(run.filter(test) == kept.push(run.last()));
        }
    }
}

/// No widget is hit twice.
pub proof fn lemma_hits_no_duplicates(nodes: Seq<WidgetNode>, point: Point)
    requires
        is_forest(nodes),
    ensures
        hit_sequence(nodes, point).no_duplicates(),
{
    lemma_hits_reverse_drawing(nodes, point);
    lemma_draw_order_is_all(nodes);
    lemma_reverse_no_duplicates(draw_order(nodes));
    lemma_filter_no_duplicates(
        draw_order(nodes).reverse(),
        under_point(nodes, point.x as int, point.y as int),
    );
}

/// Hit-testing has no memory: the same forest and the same position give the same widgets in
/// the same order, however often one asks.
pub proof fn lemma_hit_test_repeats(first: Seq<WidgetNode>, second: Seq<WidgetNode>, point: Point)
    requires
        first == second,
    ensures
        hit_sequence(first, point) == hit_sequence(second, point),
{
}

} // verus!
