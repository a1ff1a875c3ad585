use crate::engine::callbacks::{event_target, target_of, CallbackEvent, EventResponse};
use crate::engine::forest::{
    alive, anchor, child_links_hold, children_ascend, detached, draw_order, due_for_redraw,
    hit_sequence,
    hits_in_children, hits_in_roots, hits_in_subtree, is_forest, is_live_root,
    lemma_anchor_in_range, lemma_same_geometry_same_offsets, lemma_same_shape_is_forest,
    lemma_same_shape_same_alive, lemma_same_ways_up_same_alive, lies_within,
    node_needs_redraw, node_origin, node_size,
    offset_x, offset_y, order_of_children, order_of_roots, order_of_subtree, parent_links_hold,
    redraw_order, removed_are_roots, same_geometry, same_shape, same_ways_up, WidgetNode,
};
use crate::engine::forest_proofs::{
    lemma_child_listed_once, lemma_detached_alive, lemma_detached_is_forest,
    lemma_draw_order_is_all, lemma_hits_are_widgets_under_point,
};
use crate::engine::point::{point_in_bounds, Point, Size};
use crate::widget::config::{
    CONFIG_BODY_SIZE, CONFIG_INVALIDATE, CONFIG_ORIGIN, CONFIG_WIDGET_HIDDEN,
};
use crate::widget::drawable::DrawCommand;
use crate::widget::widget::Widget;
use vstd::prelude::*;

verus! {

/// Why the store refused a request.
#[derive(Clone, Copy, Debug, PartialEq, Eq, Structural)]
pub enum WidgetStoreError {
    /// No widget has the id that was asked for.
    NotFound,
    /// No widget has the id that was named as parent.
    InvalidParent,
}

/// One widget as the store keeps it: the widget, its id, the id of its parent if it has one,
/// the ids of its children from the first inserted to the last, and, on a root, whether its
/// tree was taken out of the window.
pub struct WidgetContainer<W> {
    pub widget: W,
    pub widget_id: i32,
    pub parent_id: Option<i32>,
    pub children: Vec<i32>,
    pub removed: bool,
}

/// The node that stands for a record of the store.
pub open spec fn node_of<W: Widget>(record: WidgetContainer<W>) -> WidgetNode {
    WidgetNode {
        parent: record.parent_id,
        children: record.children@,
        removed: record.removed,
        settings: record.widget.spec_config(),
    }
}

/// Whether `record` holds `widget` under `id` below `parent`, with no children yet. The widget
/// was told its id and is otherwise as it was handed over.
pub open spec fn holds_new<W: Widget>(
    record: WidgetContainer<W>,
    widget: W,
    id: i32,
    parent: Option<i32>,
) -> bool {
    &&& record.widget_id == id
    &&& record.parent_id == parent
    &&& record.children@ == Seq::<i32>::empty()
    &&& !record.removed
    &&& record.widget.spec_widget_id() == id
    &&& record.widget.spec_config() == widget.spec_config()
    &&& record.widget.spec_callbacks() == widget.spec_callbacks()
    &&& widget.differs_in_widget_id(&record.widget)
}

/// Whether `after` is `before` with one more child, the last of its children.
pub open spec fn gained_child<W: Widget>(
    before: WidgetContainer<W>,
    child: i32,
    after: WidgetContainer<W>,
) -> bool {
    &&& after.widget == before.widget
    &&& after.widget_id == before.widget_id
    &&& after.parent_id == before.parent_id
    &&& after.removed == before.removed
    &&& after.children@ == before.children@.push(child)
}

/// Whether `after` is `before` but for the widget in it: the same id, parent and children,
/// and removed or not as before.
pub open spec fn same_place<W: Widget>(
    before: WidgetContainer<W>,
    after: WidgetContainer<W>,
) -> bool {
    &&& after.widget_id == before.widget_id
    &&& after.parent_id == before.parent_id
    &&& after.children == before.children
    &&& after.removed == before.removed
}

/// The record with another widget in it.
pub open spec fn with_widget<W: Widget>(record: WidgetContainer<W>, widget: W) -> WidgetContainer<
    W,
> {
    WidgetContainer {
        widget,
        widget_id: record.widget_id,
        parent_id: record.parent_id,
        children: record.children,
        removed: record.removed,
    }
}

/// Whether the records `before` become `after`, and `response` is the answer, when `event` is
/// handed to the widget that it is addressed to. Only that widget changes, and it stays in
/// its place.
pub open spec fn delivered_one<W: Widget>(
    before: Seq<WidgetContainer<W>>,
    injected: bool,
    event: CallbackEvent,
    after: Seq<WidgetContainer<W>>,
    response: EventResponse,
) -> bool {
    let target = event_target(event) as int;
    &&& 0 <= target < before.len()
    &&& after.len() == before.len()
    &&& forall|i: int| 0 <= i < before.len() && i != target ==> after[i] == before[i]
    &&& same_place(before[target], after[target])
    &&& before[target].widget.responds(injected, event, &after[target].widget, response)
}

/// Whether the records `before` become `after`, and `responses` are the answers, when the
/// `events` are handed one after the other to the widgets that they are addressed to.
pub open spec fn delivered_all<W: Widget>(
    before: Seq<WidgetContainer<W>>,
    events: Seq<CallbackEvent>,
    after: Seq<WidgetContainer<W>>,
    responses: Seq<EventResponse>,
) -> bool
    decreases events.len(),
{
    if events.len() == 0 {
        after == before && responses.len() == 0
    } else {
        &&& responses.len() == events.len()
        &&& exists|mid: Seq<WidgetContainer<W>>|
            #![trigger delivered_one(mid, false, events.last(), after, responses.last())]
            delivered_all(before, events.drop_last(), mid, responses.drop_last())
                && delivered_one(mid, false, events.last(), after, responses.last())
    }
}

/// What the window is to paint for one widget: where the widget starts in the window's space,
/// the extent to clip to, and what to paint within, in the widget's own space.
#[derive(Debug, PartialEq, Eq)]
pub struct DrawRequest {
    pub widget_id: i32,
    pub x: i64,
    pub y: i64,
    pub size: Size,
    pub commands: Vec<DrawCommand>,
}

/// The widgets that the requests are for, in the requests' order.
pub open spec fn request_ids(requests: Seq<DrawRequest>) -> Seq<i32> {
    Seq::new(requests.len(), |k: int| requests[k].widget_id)
}

/// Whether `request` is what the widget `before`, at the index `request.widget_id` of
/// `nodes`, asks for when it paints itself and becomes `after`.
pub open spec fn request_paints<W: Widget>(
    nodes: Seq<WidgetNode>,
    before: W,
    after: W,
    request: DrawRequest,
) -> bool {
    let id = request.widget_id as int;
    &&& request.x == offset_x(nodes, id) + node_origin(nodes[id]).x
    &&& request.y == offset_y(nodes, id) + node_origin(nodes[id]).y
    &&& request.size == node_size(nodes[id])
    &&& before.paints(&after, request.commands@)
}

/// Owns every widget of a window and knows which widget lies within which.
pub struct WidgetStore<W: Widget> {
    widgets: Vec<WidgetContainer<W>>,
}

impl<W: Widget> View for WidgetStore<W> {
    type V = Seq<WidgetNode>;

    /// The forest: one node for each widget, at the index that is the widget's id.
    open spec fn view(&self) -> Seq<WidgetNode> {
        Seq::new(self.records().len(), |i: int| node_of(self.records()[i]))
    }
}

impl<W: Widget> WidgetStore<W> {
    /// The records of the store, each at the index that is its widget's id.
    pub closed spec fn records(&self) -> Seq<WidgetContainer<W>> {
        self.widgets@
    }

    /// Whether the store is sound: every widget is kept at the index that is its id, and the
    /// widgets make a forest.
    pub open spec fn wf(&self) -> bool {
        &&& forall|i: int|
            0 <= i < self.records().len() ==> (#[trigger] self.records()[i]).widget_id == i
        &&& is_forest(self@)
    }

    /// Whether `id` names a widget of the store: one that was taken in and not removed since,
    /// alone or with the widget that it lies within.
    pub open spec fn has(&self, id: i32) -> bool {
        alive(self@, id as int)
    }

    /// The ids of the widgets of the store.
    pub open spec fn ids(&self) -> Set<i32> {
        Set::new(|id: i32| self.has(id))
    }

    /// Whether a redraw of this store leaves `after` and asks for `requests`. The requests are
    /// for the widgets of the store that were marked for a redraw and not hidden, in the order
    /// of drawing.
    /// Each of them painted itself, which cleared its mark; every other widget is as it was;
    /// and every widget is where it was, with the origin and the extent that it had.
    pub open spec fn redrawn(&self, after: &Self, requests: Seq<DrawRequest>) -> bool {
        &&& same_geometry(self@, after@)
        &&& request_ids(requests) == redraw_order(self@)
        &&& forall|k: int|
            0 <= k < requests.len() ==> self.has((#[trigger] requests[k]).widget_id)
                && request_paints(
                self@,
                self.records()[requests[k].widget_id as int].widget,
                after.records()[requests[k].widget_id as int].widget,
                requests[k],
            ) && !after@[requests[k].widget_id as int].settings.contains_key(CONFIG_INVALIDATE)
        &&& forall|id: int|
            0 <= id < self.records().len() ==> same_place(
                self.records()[id],
                #[trigger] after.records()[id],
            )
        &&& forall|id: int|
            0 <= id < self.records().len() && !(alive(self@, id) && node_needs_redraw(self@[id]))
                ==> #[trigger] after.records()[id] == self.records()[id]
        &&& forall|id: int|
            alive(self@, id) && node_needs_redraw(self@[id]) ==> (#[trigger] after@[id]).settings
                == self@[id].settings.remove(CONFIG_INVALIDATE)
    }

    /// A store whose widgets stayed in their places has the widgets that it had.
    pub proof fn lemma_same_shape_same_ids(&self, after: &Self)
        requires
            same_shape(self@, after@),
        ensures
            after.ids() == self.ids(),
    {
        assert forall|id: i32| after.has(id) == self.has(id) by {
            lemma_same_shape_same_alive(self@, after@, id as int);
        }
        assert(after.ids() =~= self.ids());
    }

    /// A sound store in which one widget changed is sound, and has the widgets that it had in
    /// the places that they had: what `get_widget_mut` leaves behind, whatever is done to the
    /// widget.
    pub proof fn lemma_changed_widget(&self, after: &Self, widget_id: i32, widget: W)
        requires
            self.wf(),
            self.has(widget_id),
            after.records() == self.records().update(
                widget_id as int,
                with_widget(self.records()[widget_id as int], widget),
            ),
        ensures
            after.wf(),
            same_shape(self@, after@),
            after.ids() == self.ids(),
    {
        assert(same_shape(self@, after@));
        lemma_same_shape_is_forest(self@, after@);
        self.lemma_same_shape_same_ids(after);
    }

    /// A store without widgets.
    pub fn new() -> (store: Self)
        ensures
            store.wf(),
            store.records().len() == 0,
    {
        Self { widgets: Vec::new() }
    }

    /// How many ids the store has given out, the removed widgets counted.
    pub fn len(&self) -> (count: usize)
        ensures
            count == self.records().len(),
    {
        self.widgets.len()
    }

    /// The records of the store, to read them.
    pub fn widgets(&self) -> (records: &Vec<WidgetContainer<W>>)
        ensures
            records@ == self.records(),
    {
        &self.widgets
    }

    /// Takes `widget` in as a root. The widget gets the next id and is told it.
    pub fn add_widget(&mut self, widget: W) -> (widget_id: i32)
        requires
            old(self).wf(),
            old(self).records().len() < i32::MAX,
        ensures
            final(self).wf(),
            widget_id == old(self).records().len(),
            final(self).records().len() == old(self).records().len() + 1,
            final(self).records().drop_last() == old(self).records(),
            holds_new(final(self).records().last(), widget, widget_id, None),
            forall|id: i32| final(self).has(id) <==> old(self).has(id) || id == widget_id,
    {
        let widget_id: i32 = self.widgets.len() as i32;
        let mut widget = widget;
        widget.set_widget_id(widget_id);
        self.widgets.push(
            WidgetContainer {
                widget,
                widget_id,
                parent_id: None,
                children: Vec::new(),
                removed: false,
            },
        );
        proof {
            assert(final(self).records().drop_last() =~= old(self).records());
            let before = old(self)@;
            let after = final(self)@;
            assert forall|i: int| 0 <= i < before.len() implies after[i] == before[i] by {
                assert(final(self).records()[i] == old(self).records()[i]);
            }
            assert(parent_links_hold(after)) by {
                assert forall|i: int| 0 <= i < after.len() implies match (
                #[trigger] after[i]).parent {
                    Some(p) => 0 <= p < i && after[p as int].children.contains(i as i32),
                    None => true,
                } by {
                    if i < before.len() {
                        assert(after[i] == before[i]);
                    }
                }
            }
            assert(removed_are_roots(after)) by {
                assert forall|i: int|
                    0 <= i < after.len() && (#[trigger] after[i]).removed implies after[i].parent
                    is None by {
                    if i < before.len() {
                        assert(after[i] == before[i]);
                    }
                }
            }
            assert forall|id: i32|
                final(self).has(id) <==> old(self).has(id) || id == widget_id by {
                if 0 <= id < before.len() {
                    lemma_same_ways_up_same_alive(before, after, id as int);
                }
            }
        }
        widget_id
    }

    /// Takes `widget` in as the last child of the widget `parent_id`, so that it lies on top of
    /// the children that are there. The widget gets the next id and is told it. Where no widget
    /// of the store has the id `parent_id`, nothing changes.
    pub fn add_widget_to_parent(&mut self, widget: W, parent_id: i32) -> (result: Result<
        i32,
        WidgetStoreError,
    >)
        requires
            old(self).wf(),
            old(self).records().len() < i32::MAX,
        ensures
            final(self).wf(),
            match result {
                Ok(widget_id) => {
                    &&& old(self).has(parent_id)
                    &&& widget_id == old(self).records().len()
                    &&& final(self).records().len() == old(self).records().len() + 1
                    &&& holds_new(
                        final(self).records().last(),
                        widget,
                        widget_id,
                        Some(parent_id),
                    )
                    &&& gained_child(
                        old(self).records()[parent_id as int],
                        widget_id,
                        final(self).records()[parent_id as int],
                    )
                    &&& forall|i: int|
                        0 <= i < old(self).records().len() && i != parent_id ==> (
                        #[trigger] final(self).records()[i]) == old(self).records()[i]
                    &&& forall|id: i32|
                        final(self).has(id) <==> old(self).has(id) || id == widget_id
                },
                Err(error) => {
                    &&& error == WidgetStoreError::InvalidParent
                    &&& !old(self).has(parent_id)
                    &&& final(self).records() == old(self).records()
                },
            },
    {
        if !self.is_alive(parent_id) {
            return Err(WidgetStoreError::InvalidParent);
        }
        let widget_id: i32 = self.widgets.len() as i32;
        let mut widget = widget;
        widget.set_widget_id(widget_id);
        self.widgets[parent_id as usize].children.push(widget_id);
        self.widgets.push(
            WidgetContainer {
                widget,
                widget_id,
                parent_id: Some(parent_id),
                children: Vec::new(),
                removed: false,
            },
        );
        proof {
            let before = old(self)@;
            let after = final(self)@;
            let p = parent_id as int;
            let n = before.len() as int;
            assert(after.len() == n + 1);
            assert(after[n].parent == Some(parent_id));
            assert(after[n].children.len() == 0);
            assert(after[p].children == before[p].children.push(widget_id));
            assert(after[p].parent == before[p].parent);
            assert(after[p].removed == before[p].removed);
            assert forall|i: int| 0 <= i < n && i != p implies after[i] == before[i] by {
                assert(final(self).records()[i] == old(self).records()[i]);
            }
            assert(parent_links_hold(after)) by {
                assert forall|i: int| 0 <= i < after.len() implies match (
                #[trigger] after[i]).parent {
                    Some(q) => 0 <= q < i && after[q as int].children.contains(i as i32),
                    None => true,
                } by {
                    if i == n {
                        assert(after[p].children[before[p].children.len() as int] == widget_id);
                    } else {
                        assert(after[i].parent == before[i].parent);
                        match before[i].parent {
                            Some(q) => {
                                let k = choose|k: int|
                                    0 <= k < before[q as int].children.len()
                                        && before[q as int].children[k] == i as i32;
                                if q == p {
                                    assert(after[p].children[k] == i as i32);
                                } else {
                                    assert(after[q as int].children[k] == i as i32);
                                }
                            },
                            None => {},
                        }
                    }
                }
            }
            assert(child_links_hold(after)) by {
                assert forall|i: int, k: int|
                    0 <= i < after.len() && 0 <= k < after[i].children.len() implies {
                    let c = #[trigger] after[i].children[k];
                    i < c < after.len() && after[c as int].parent == Some(i as i32)
                } by {
                    if i == p && k == before[p].children.len() {
                    } else if i < n {
                        assert(after[i].children[k] == before[i].children[k]);
                        let c = before[i].children[k];
                        assert(after[c as int].parent == before[c as int].parent);
                    }
                }
            }
            assert(children_ascend(after)) by {
                assert forall|i: int, j: int, k: int|
                    0 <= i < after.len() && 0 <= j < k < after[i].children.len() implies (
                    #[trigger] after[i].children[j]) < (#[trigger] after[i].children[k]) by {
                    if i < n {
                        if j < before[i].children.len() {
                            assert(after[i].children[j] == before[i].children[j]);
                        }
                        if k < before[i].children.len() {
                            assert(after[i].children[k] == before[i].children[k]);
                        }
                    }
                }
            }
            assert(removed_are_roots(after)) by {
                assert forall|i: int|
                    0 <= i < after.len() && (#[trigger] after[i]).removed implies after[i].parent
                    is None by {
                    if i < n {
                        assert(after[i].removed == before[i].removed);
                        assert(after[i].parent == before[i].parent);
                    }
                }
            }
            assert(same_ways_up(before, after)) by {
                assert forall|i: int| 0 <= i < before.len() implies (#[trigger] after[i]).parent
                    == before[i].parent && after[i].removed == before[i].removed by {
                    if i != p {
                        assert(after[i] == before[i]);
                    }
                }
            }
            assert forall|id: i32|
                final(self).has(id) <==> old(self).has(id) || id == widget_id by {
                if 0 <= id < n {
                    lemma_same_ways_up_same_alive(before, after, id as int);
                }
                if id == widget_id {
                    lemma_same_ways_up_same_alive(before, after, p);
                    assert(anchor(after, None, n) == anchor(after, None, p));
                }
            }
        }
        Ok(widget_id)
    }

    /// Takes the widget `widget_id` out of the store with all that lies within it. The ids of
    /// what was taken out name no widget from then on, and are not given out again. The
    /// widgets that stay are untouched, but for the parent, which has a child less.
    pub fn remove_widget(&mut self, widget_id: i32) -> (result: Result<(), WidgetStoreError>)
        requires
            old(self).wf(),
        ensures
            final(self).wf(),
            match result {
                Ok(()) => {
                    &&& old(self).has(widget_id)
                    &&& detached(old(self)@, widget_id as int, final(self)@)
                    &&& forall|id: i32|
                        final(self).has(id) <==> old(self).has(id) && !lies_within(
                            old(self)@,
                            widget_id as int,
                            id as int,
                        )
                    &&& forall|i: int|
                        0 <= i < old(self).records().len() ==> (
                        #[trigger] final(self).records()[i]).widget == old(self).records()[i].widget
                },
                Err(error) => {
                    &&& error == WidgetStoreError::NotFound
                    &&& !old(self).has(widget_id)
                    &&& final(self).records() == old(self).records()
                },
            },
    {
        if !self.is_alive(widget_id) {
            return Err(WidgetStoreError::NotFound);
        }
        let index = widget_id as usize;
        let ghost before = self.records();
        let ghost nodes = self@;
        match self.widgets[index].parent_id {
            Some(parent) => {
                let around = parent as usize;
                let ghost listed = self@[around as int].children;
                let ghost place = lemma_child_listed_once(nodes, index as int);
                assert(nodes[index as int].parent == Some(parent));
                let count = self.widgets[around].children.len();
                let mut k: usize = 0;
                while k < count && self.widgets[around].children[k] != widget_id
                    invariant
                        self.records() == before,
                        around < before.len(),
                        count == before[around as int].children@.len(),
                        listed == before[around as int].children@,
                        0 <= place < listed.len(),
                        listed[place] == widget_id,
                        k <= place,
                    decreases count - k,
                {
                    k += 1;
                }
                proof {
                    let row = nodes[around as int].children;
                    if k < place {
                        assert(row[k as int] < row[place]);
                    }
                    assert(k == place);
                    assert(listed.index_of(widget_id) == place) by {
                        let found = listed.index_of(widget_id);
                        assert(0 <= found < listed.len() && listed[found] == widget_id);
                        if found < place {
                            assert(row[found] < row[place]);
                        } else if place < found {
                            assert(row[place] < row[found]);
                        }
                    }
                }
                self.widgets[around].children.remove(k);
                self.widgets[index].parent_id = None;
            },
            None => {
                assert(nodes[index as int].parent is None);
            },
        }
        self.widgets[index].removed = true;
        proof {
            assert(detached(nodes, index as int, self@)) by {
                let up = nodes[index as int].parent;
                assert forall|i: int|
                    0 <= i < nodes.len() && i != index && Some(i as i32) != up implies (
                #[trigger] self@[i]) == nodes[i] by {
                    assert(self.records()[i] == before[i]);
                }
            }
            lemma_detached_is_forest(nodes, index as int, self@);
            assert forall|id: i32|
                self.has(id) <==> alive(nodes, id as int) && !lies_within(
                    nodes,
                    widget_id as int,
                    id as int,
                ) by {
                lemma_detached_alive(nodes, index as int, self@, id as int);
            }
        }
        Ok(())
    }

    /// Whether `widget_id` names a widget of the store.
    pub fn is_alive(&self, widget_id: i32) -> (found: bool)
        requires
            self.wf(),
        ensures
            found == self.has(widget_id),
    {
        if widget_id < 0 || widget_id as usize >= self.widgets.len() {
            return false;
        }
        let mut current: usize = widget_id as usize;
        loop
            invariant
                self.wf(),
                current < self.records().len(),
                anchor(self@, None, current as int) == anchor(self@, None, widget_id as int),
            ensures
                current < self.records().len(),
                current == anchor(self@, None, widget_id as int),
            decreases current,
        {
            match self.widgets[current].parent_id {
                Some(parent) => {
                    assert(self@[current as int].parent == Some(parent));
                    assert(0 <= parent < current);
                    current = parent as usize;
                },
                None => {
                    assert(self@[current as int].parent is None);
                    break ;
                },
            }
        }
        !self.widgets[current].removed
    }

    /// The widget with the id `widget_id`, to read it.
    pub fn get_widget(&self, widget_id: i32) -> (result: Result<&W, WidgetStoreError>)
        requires
            self.wf(),
        ensures
            match result {
                Ok(widget) => {
                    &&& self.has(widget_id)
                    &&& *widget == self.records()[widget_id as int].widget
                },
                Err(error) => error == WidgetStoreError::NotFound && !self.has(widget_id),
            },
    {
        if !self.is_alive(widget_id) {
            return Err(WidgetStoreError::NotFound);
        }
        Ok(&self.widgets[widget_id as usize].widget)
    }

    /// The widget with the id `widget_id`, to change it. Nothing else in the store changes.
    pub fn get_widget_mut(&mut self, widget_id: i32) -> (result: Result<&mut W, WidgetStoreError>)
        requires
            old(self).wf(),
        ensures
            match result {
                Ok(widget) => {
                    &&& old(self).has(widget_id)
                    &&& *widget == old(self).records()[widget_id as int].widget
                    &&& final(self).records() == old(self).records().update(
                        widget_id as int,
                        with_widget(old(self).records()[widget_id as int], *final(widget)),
                    )
                },
                Err(error) => {
                    &&& error == WidgetStoreError::NotFound
                    &&& !old(self).has(widget_id)
                    &&& final(self).records() == old(self).records()
                },
            },
    {
        if !self.is_alive(widget_id) {
            return Err(WidgetStoreError::NotFound);
        }
        Ok(&mut self.widgets[widget_id as usize].widget)
    }

    /// Appends the widget `id` and all that lies within it, in the order of drawing.
    fn collect_order(&self, id: usize, order: &mut Vec<i32>)
        requires
            self.wf(),
            id < self.records().len(),
        ensures
            final(order)@ == old(order)@ + order_of_subtree(self@, id as int),
        decreases self.records().len() - id,
    {
        let ghost start = order@;
        order.push(id as i32);
        let count = self.widgets[id].children.len();
        let mut k: usize = 0;
        while k < count
            invariant
                self.wf(),
                id < self.records().len(),
                count == self.records()[id as int].children@.len(),
                k <= count,
                order@ == start + seq![id as i32] + order_of_children(self@, id as int, k as int),
            decreases count - k,
        {
            let child = self.widgets[id].children[k];
            assert(child == self@[id as int].children[k as int]);
            assert(id < child < self@.len());
            self.collect_order(child as usize, order);
            k += 1;
        }
    }

    /// The ids of all widgets in the order of drawing: a parent before its children, and the
    /// children of one parent, like the roots, from the first inserted to the last.
    pub fn traverse_draw_order(&self) -> (order: Vec<i32>)
        requires
            self.wf(),
        ensures
            order@ == draw_order(self@),
    {
        let mut order: Vec<i32> = Vec::new();
        let count = self.widgets.len();
        let mut i: usize = 0;
        while i < count
            invariant
                self.wf(),
                count == self.records().len(),
                i <= count,
                order@ == order_of_roots(self@, i as int),
            decreases count - i,
        {
            if self.widgets[i].parent_id.is_none() && !self.widgets[i].removed {
                self.collect_order(i, &mut order);
            }
            i += 1;
        }
        order
    }

    /// Appends those among the widget `id` and all that lies within it whose bounds hold
    /// `(x, y)`, the topmost first.
    fn collect_hits(&self, id: usize, x: i64, y: i64, hits: &mut Vec<i32>)
        requires
            self.wf(),
            id < self.records().len(),
            -(id + 1) * 0x8000_0000 <= x <= (id + 1) * 0x8000_0000,
            -(id + 1) * 0x8000_0000 <= y <= (id + 1) * 0x8000_0000,
        ensures
            final(hits)@ == old(hits)@ + hits_in_subtree(self@, id as int, x as int, y as int),
        decreases self.records().len() - id,
    {
        let ghost start = hits@;
        let origin = self.widgets[id].widget.settings().get_point(CONFIG_ORIGIN);
        let size = self.widgets[id].widget.settings().get_size(CONFIG_BODY_SIZE);
        assert(origin == node_origin(self@[id as int]));
        let local_x: i64 = x - origin.x as i64;
        let local_y: i64 = y - origin.y as i64;
        let count = self.widgets[id].children.len();
        let mut k: usize = count;
        while k > 0
            invariant
                self.wf(),
                id < self.records().len(),
                count == self.records()[id as int].children@.len(),
                k <= count,
                -(id + 2) * 0x8000_0000 <= local_x <= (id + 2) * 0x8000_0000,
                -(id + 2) * 0x8000_0000 <= local_y <= (id + 2) * 0x8000_0000,
                hits@ + hits_in_children(self@, id as int, k as int, local_x as int, local_y as int)
                    == start + hits_in_children(
                    self@,
                    id as int,
                    count as int,
                    local_x as int,
                    local_y as int,
                ),
            decreases k,
        {
            let child = self.widgets[id].children[k - 1];
            assert(child == self@[id as int].children[k - 1]);
            assert(id < child < self@.len());
            let ghost before = hits@;
            self.collect_hits(child as usize, local_x, local_y, hits);
            proof {
                let rest = hits_in_children(
                    self@,
                    id as int,
                    k - 1,
                    local_x as int,
                    local_y as int,
                );
                let sub = hits_in_subtree(self@, child as int, local_x as int, local_y as int);
                assert(hits@ + rest =~= before + (sub + rest));
            }
            k -= 1;
        }
        if point_in_bounds(origin, size, x, y) {
            hits.push(id as i32);
        }
        proof {
            assert(hits_in_children(self@, id as int, 0, local_x as int, local_y as int)
                =~= Seq::<i32>::empty());
            assert(hits@ =~= start + hits_in_subtree(self@, id as int, x as int, y as int));
        }
    }

    /// The ids of all widgets whose bounds hold `point`, a position in the window's space,
    /// from the topmost to the bottommost. A widget lies on top of its container, and on top
    /// of what was inserted before it into the same container.
    pub fn widget_ids_at_point(&self, point: Point) -> (ids: Vec<i32>)
        requires
            self.wf(),
        ensures
            ids@ == hit_sequence(self@, point),
            forall|k: int| 0 <= k < ids@.len() ==> self.has(#[trigger] ids@[k]),
    {
        let mut ids: Vec<i32> = Vec::new();
        let count = self.widgets.len();
        let x: i64 = point.x as i64;
        let y: i64 = point.y as i64;
        let mut i: usize = count;
        while i > 0
            invariant
                self.wf(),
                count == self.records().len(),
                i <= count,
                x == point.x,
                y == point.y,
                ids@ + hits_in_roots(self@, i as int, x as int, y as int) == hits_in_roots(
                    self@,
                    count as int,
                    x as int,
                    y as int,
                ),
            decreases i,
        {
            let ghost before = ids@;
            if self.widgets[i - 1].parent_id.is_none() && !self.widgets[i - 1].removed {
                self.collect_hits(i - 1, x, y, &mut ids);
            }
            proof {
                let rest = hits_in_roots(self@, i - 1, x as int, y as int);
                let sub = if is_live_root(self@[i - 1]) {
                    hits_in_subtree(self@, i - 1, x as int, y as int)
                } else {
                    Seq::<i32>::empty()
                };
                assert(ids@ + rest =~= before + (sub + rest));
            }
            i -= 1;
        }
        proof {
            assert(hits_in_roots(self@, 0, x as int, y as int) =~= Seq::<i32>::empty());
            assert(ids@ =~= ids@ + Seq::<i32>::empty());
            lemma_hits_are_widgets_under_point(self@, point);
            assert forall|k: int| 0 <= k < ids@.len() implies self.has(#[trigger] ids@[k]) by {
                assert(hit_sequence(self@, point).contains(ids@[k]));
            }
        }
        ids
    }

    /// Hands `event` to the widget that it is addressed to, and returns the widget's answer.
    /// Where the event is addressed to no widget of the store, nothing changes.
    pub fn deliver(&mut self, injected: bool, event: CallbackEvent) -> (result: Result<
        EventResponse,
        WidgetStoreError,
    >)
        requires
            old(self).wf(),
        ensures
            final(self).wf(),
            same_shape(old(self)@, final(self)@),
            final(self).ids() == old(self).ids(),
            match result {
                Ok(response) => delivered_one(
                    old(self).records(),
                    injected,
                    event,
                    final(self).records(),
                    response,
                ),
                Err(error) => {
                    &&& error == WidgetStoreError::NotFound
                    &&& !old(self).has(event_target(event))
                    &&& final(self).records() == old(self).records()
                },
            },
    {
        let target = target_of(&event);
        let result = match self.get_widget_mut(target) {
            Ok(widget) => Ok(widget.handle_event(injected, event)),
            Err(error) => Err(error),
        };
        proof {
            if old(self).has(target) {
                old(self).lemma_changed_widget(
                    final(self),
                    target,
                    final(self).records()[target as int].widget,
                );
            } else {
                old(self).lemma_same_shape_same_ids(final(self));
            }
        }
        result
    }

    /// Where the widget `id` starts in the window's space.
    fn absolute_origin(&self, id: usize) -> (origin: (i64, i64))
        requires
            self.wf(),
            id < self.records().len(),
        ensures
            origin.0 == offset_x(self@, id as int) + node_origin(self@[id as int]).x,
            origin.1 == offset_y(self@, id as int) + node_origin(self@[id as int]).y,
    {
        let own = self.widgets[id].widget.settings().get_point(CONFIG_ORIGIN);
        let mut x: i64 = own.x as i64;
        let mut y: i64 = own.y as i64;
        let mut current: usize = id;
        loop
            invariant
                self.wf(),
                current <= id < self.records().len(),
                x + offset_x(self@, current as int) == offset_x(self@, id as int) + node_origin(
                    self@[id as int],
                ).x,
                y + offset_y(self@, current as int) == offset_y(self@, id as int) + node_origin(
                    self@[id as int],
                ).y,
                -(id - current + 1) * 0x8000_0000 <= x <= (id - current + 1) * 0x8000_0000,
                -(id - current + 1) * 0x8000_0000 <= y <= (id - current + 1) * 0x8000_0000,
            ensures
                x == offset_x(self@, id as int) + node_origin(self@[id as int]).x,
                y == offset_y(self@, id as int) + node_origin(self@[id as int]).y,
            decreases current,
        {
            match self.widgets[current].parent_id {
                Some(parent) => {
                    assert(self@[current as int].parent == Some(parent));
                    assert(0 <= parent < current);
                    let outer = self.widgets[parent as usize].widget.settings().get_point(
                        CONFIG_ORIGIN,
                    );
                    assert(outer == node_origin(self@[parent as int]));
                    x = x + outer.x as i64;
                    y = y + outer.y as i64;
                    current = parent as usize;
                },
                None => {
                    assert(self@[current as int].parent is None);
                    break ;
                },
            }
        }
        (x, y)
    }

    /// Paints what needs it. The pass goes through the widgets in the order of drawing, as it
    /// is when the pass begins, and asks each widget that is marked for a redraw and not hidden
    /// to paint itself, which clears the widget's mark. Every other widget is left as it is,
    /// and every widget stays in its place.
    pub fn redraw(&mut self) -> (requests: Vec<DrawRequest>)
        requires
            old(self).wf(),
        ensures
            final(self).wf(),
            old(self).redrawn(final(self), requests@),
    {
        let order = self.traverse_draw_order();
        let mut requests: Vec<DrawRequest> = Vec::new();
        let ghost before = self.records();
        let ghost nodes = self@;
        let ghost test = due_for_redraw(nodes);
        proof {
            lemma_draw_order_is_all(nodes);
            reveal(Seq::filter);
            assert(order@.take(0) =~= Seq::<i32>::empty());
            assert(request_ids(requests@) =~= order@.take(0).filter(test));
        }
        let mut i: usize = 0;
        while i < order.len()
            invariant
                self.wf(),
                i <= order.len(),
                order@ == draw_order(nodes),
                order@.no_duplicates(),
                forall|at: int| 0 <= at < order@.len()
                    ==> alive(nodes, #[trigger] order@[at] as int),
                nodes == old(self)@,
                before == old(self).records(),
                test == due_for_redraw(nodes),
                self.records().len() == before.len(),
                is_forest(nodes),
                same_geometry(nodes, self@),
                request_ids(requests@) == order@.take(i as int).filter(test),
                forall|k: int|
                    0 <= k < requests.len() ==> 0 <= (#[trigger] requests[k]).widget_id
                        < before.len() && order@.take(i as int).contains(requests[k].widget_id)
                        && request_paints(
                        nodes,
                        before[requests[k].widget_id as int].widget,
                        self.records()[requests[k].widget_id as int].widget,
                        requests[k],
                    ),
                forall|id: int|
                    0 <= id < before.len() ==> same_place(
                        before[id],
                        #[trigger] self.records()[id],
                    ),
                forall|id: int|
                    0 <= id < before.len() && !(order@.take(i as int).contains(id as i32)
                        && node_needs_redraw(nodes[id])) ==> #[trigger] self.records()[id]
                        == before[id],
                forall|id: int|
                    0 <= id < before.len() && order@.take(i as int).contains(id as i32)
                        && node_needs_redraw(nodes[id]) ==> (#[trigger] self@[id]).settings
                        == nodes[id].settings.remove(CONFIG_INVALIDATE),
            decreases order.len() - i,
        {
            let widget_id = order[i];
            let index = widget_id as usize;
            let ghost seen = order@.take(i as int);
            let ghost now = order@.take(i + 1);
            let ghost earlier = self.records();
            let ghost earlier_nodes = self@;
            let ghost asked = requests@;
            proof {
                assert(now =~= seen.push(widget_id));
                seen.lemma_filter_push(widget_id, test);
                assert(!seen.contains(widget_id)) by {
                    if seen.contains(widget_id) {
                        let at = choose|at: int| 0 <= at < seen.len() && seen[at] == widget_id;
                        assert(order@[at] == order@[i as int]);
                    }
                }
                assert(self.records()[index as int] == before[index as int]);
                assert forall|id: i32| now.contains(id) <==> (seen.contains(id) || id
                    == widget_id) by {
                    if seen.contains(id) {
                        let at = choose|at: int| 0 <= at < seen.len() && seen[at] == id;
                        assert(now[at] == id);
                    }
                    if id == widget_id {
                        assert(now[i as int] == id);
                    }
                }
            }
            let invalidated = self.widgets[index].widget.is_invalidated();
            let hidden = self.widgets[index].widget.settings().get_toggle(CONFIG_WIDGET_HIDDEN);
            assert(self@[index as int] == nodes[index as int]);
            if invalidated && !hidden {
                let origin = self.absolute_origin(index);
                let size = self.widgets[index].widget.get_size();
                proof {
                    lemma_same_geometry_same_offsets(nodes, self@, index as int);
                }
                let commands = self.widgets[index].widget.draw();
                requests.push(
                    DrawRequest { widget_id, x: origin.0, y: origin.1, size, commands },
                );
                proof {
                    assert(test(widget_id));
                    assert(request_ids(requests@) =~= request_ids(asked).push(widget_id));
                    assert forall|id: int| 0 <= id < before.len() && id != index
                        implies self.records()[id]
                        == earlier[id] && self@[id] == earlier_nodes[id] by {}
                    assert(self@[index as int].settings == nodes[index as int].settings.remove(
                        CONFIG_INVALIDATE,
                    ));
                    assert(same_geometry(nodes, self@)) by {
                        assert forall|id: int| 0 <= id < nodes.len()
                            implies (#[trigger] self@[id]).parent
                            == nodes[id].parent && self@[id].children == nodes[id].children
                            && node_origin(self@[id]) == node_origin(nodes[id]) && node_size(
                            self@[id],
                        ) == node_size(nodes[id]) by {
                            assert(same_place(before[id], self.records()[id]));
                            if id != index {
                                assert(self@[id] == earlier_nodes[id]);
                            }
                        }
                    }
                    lemma_same_shape_is_forest(nodes, self@);
                    assert forall|k: int| 0 <= k < requests.len() implies 0 <= (
                    #[trigger] requests[k]).widget_id < before.len() && now.contains(
                        requests[k].widget_id,
                    ) && request_paints(
                        nodes,
                        before[requests[k].widget_id as int].widget,
                        self.records()[requests[k].widget_id as int].widget,
                        requests[k],
                    ) by {
                        if k < asked.len() {
                            assert(requests[k] == asked[k]);
                            assert(seen.contains(asked[k].widget_id));
                            assert(asked[k].widget_id != widget_id);
                            assert(self.records()[asked[k].widget_id as int]
                                == earlier[asked[k].widget_id as int]);
                        } else {
                            assert(requests[k].widget_id == widget_id);
                        }
                    }
                    assert forall|id: int|
                        0 <= id < before.len() && now.contains(id as i32) && node_needs_redraw(
                            nodes[id],
                        ) implies (#[trigger] self@[id]).settings == nodes[id].settings.remove(
                        CONFIG_INVALIDATE,
                    ) by {
                        if id != index {
                            assert(seen.contains(id as i32));
                            assert(self@[id] == earlier_nodes[id]);
                        }
                    }
                }
            } else {
                proof {
                    assert(!test(widget_id));
                    assert forall|k: int| 0 <= k < requests.len() implies now.contains(
                        (#[trigger] requests[k]).widget_id,
                    ) by {
                        assert(seen.contains(requests[k].widget_id));
                    }
                }
            }
            i += 1;
        }
        proof {
            assert(order@.take(order.len() as int) =~= order@);
            assert forall|k: int| 0 <= k < requests.len() implies !self@[(
            #[trigger] requests[k]).widget_id as int].settings.contains_key(CONFIG_INVALIDATE) by {
                assert(request_ids(requests@)[k] == requests[k].widget_id);
                order@.lemma_filter_pred(test, k);
            }
            assert forall|id: int|
                0 <= id < before.len() && !(alive(nodes, id)
                    && node_needs_redraw(nodes[id])) implies #[trigger] self.records()[id]
                == before[id] by {
                if order@.contains(id as i32) {
                    let at = choose|at: int| 0 <= at < order@.len() && order@[at] == id as i32;
                    assert(alive(nodes, order@[at] as int));
                }
            }
            assert forall|id: int| alive(nodes, id) && node_needs_redraw(nodes[id]) implies (
            #[trigger] self@[id]).settings == nodes[id].settings.remove(CONFIG_INVALIDATE) by {
                assert(order@.contains(id as i32));
            }
        }
        requests
    }
}

} // verus!
