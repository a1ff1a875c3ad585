use crate::engine::forest::{
    alive, is_forest, lemma_same_shape_is_forest, lemma_same_shape_same_alive, node_size,
    same_shape, WidgetNode,
};
use crate::engine::point::{Point, Size};
use crate::engine::widget_store::{same_place, WidgetContainer, WidgetStore};
use crate::widget::config::{
    point_setting, size_setting, Config, CONFIG_BODY_SIZE, CONFIG_INVALIDATE, CONFIG_ORIGIN,
};
use crate::widget::widget::Widget;
use vstd::prelude::*;

verus! {

/// Where a layout puts one child, in the space of the container, and how much room it gives.
#[derive(Clone, Copy, Debug, PartialEq, Eq, Structural)]
pub struct Placement {
    pub origin: Point,
    pub size: Size,
}

/// The extents that the children `ids` have in the forest, in the order of `ids`. An id that
/// no widget of the window has counts as a child without extent.
pub open spec fn child_sizes(nodes: Seq<WidgetNode>, ids: Seq<i32>) -> Seq<Size> {
    Seq::new(
        ids.len(),
        |k: int|
            if alive(nodes, ids[k] as int) {
                node_size(nodes[ids[k] as int])
            } else {
                Size { w: 0, h: 0 }
            },
    )
}

/// The settings of a widget after it was put where `placement` says: its origin and its
/// extent are those of the placement, and it is marked for a redraw.
pub open spec fn placed_settings(before: Map<u8, Config>, placement: Placement) -> Map<
    u8,
    Config,
> {
    before.insert(CONFIG_ORIGIN, Config::Point(placement.origin)).insert(
        CONFIG_BODY_SIZE,
        Config::Size(placement.size),
    ).insert(CONFIG_INVALIDATE, Config::Toggle(true))
}

/// A widget that was put somewhere starts there, has the extent that it was given, and is
/// marked for a redraw; to put it there once more changes nothing in its settings.
pub proof fn lemma_placed_settings(settings: Map<u8, Config>, placement: Placement)
    ensures
        point_setting(placed_settings(settings, placement), CONFIG_ORIGIN) == placement.origin,
        size_setting(placed_settings(settings, placement), CONFIG_BODY_SIZE) == placement.size,
        placed_settings(settings, placement).contains_key(CONFIG_INVALIDATE),
        placed_settings(placed_settings(settings, placement), placement) == placed_settings(
            settings,
            placement,
        ),
{
    assert(placed_settings(placed_settings(settings, placement), placement) =~= placed_settings(
        settings,
        placement,
    ));
}

/// Whether the widget `before` becomes `after` when it is put where `placement` says: it is
/// told its origin, then its extent, as any setting, and it is marked for a redraw.
pub open spec fn placed_as<W: Widget>(before: W, placement: Placement, after: W) -> bool {
    &&& after.spec_config() == placed_settings(before.spec_config(), placement)
    &&& after.spec_callbacks() == before.spec_callbacks()
    &&& after.spec_widget_id() == before.spec_widget_id()
    &&& exists|first: W, second: W|
        #![trigger first.configures(CONFIG_BODY_SIZE, Config::Size(placement.size), &second)]
        {
            &&& before.configures(CONFIG_ORIGIN, Config::Point(placement.origin), &first)
            &&& first.configures(CONFIG_BODY_SIZE, Config::Size(placement.size), &second)
            &&& second.differs_in_config(&after)
        }
}

/// Whether the records `before`, which make the forest `nodes`, become `after` when the
/// children `ids` are put where `placed` says, each child at the placement of its index. The
/// widgets stay in their places in the forest, and no widget but the children changes. An id
/// that no widget of the window has is passed over, and so is an id that was named before:
/// a child goes where it is named first.
pub open spec fn laid_out<W: Widget>(
    placed: Seq<Placement>,
    nodes: Seq<WidgetNode>,
    before: Seq<WidgetContainer<W>>,
    ids: Seq<i32>,
    after: Seq<WidgetContainer<W>>,
) -> bool {
    &&& after.len() == before.len()
    &&& forall|id: int| 0 <= id < before.len() ==> same_place(before[id], #[trigger] after[id])
    &&& forall|id: int|
        0 <= id < before.len() && !(alive(nodes, id) && ids.contains(id as i32))
            ==> #[trigger] after[id] == before[id]
    &&& forall|k: int|
        0 <= k < ids.len() && alive(nodes, #[trigger] ids[k] as int) && !ids.take(k).contains(
            ids[k],
        ) ==> placed_as(before[ids[k] as int].widget, placed[k], after[ids[k] as int].widget)
}

/// A copy of `ids`.
pub fn copy_ids(ids: &Vec<i32>) -> (copy: Vec<i32>)
    ensures
        copy@ == ids@,
{
    let mut copy: Vec<i32> = Vec::new();
    let mut k: usize = 0;
    while k < ids.len()
        invariant
            k <= ids.len(),
            copy@ == ids@.take(k as int),
        decreases ids.len() - k,
    {
        copy.push(ids[k]);
        assert(ids@.take(k + 1) =~= ids@.take(k as int).push(ids@[k as int]));
        k += 1;
    }
    assert(ids@.take(ids.len() as int) =~= ids@);
    copy
}

/// Whether the id at the index `k` of `ids` stands at an earlier index too.
pub fn named_before(ids: &Vec<i32>, k: usize) -> (found: bool)
    requires
        k < ids.len(),
    ensures
        found == ids@.take(k as int).contains(ids@[k as int]),
{
    let mut j: usize = 0;
    while j < k
        invariant
            j <= k < ids.len(),
            forall|i: int| 0 <= i < j ==> ids@[i] != ids@[k as int],
        decreases k - j,
    {
        if ids[j] == ids[k] {
            assert(ids@.take(k as int)[j as int] == ids@[k as int]);
            return true;
        }
        j += 1;
    }
    false
}

/// Arranges the children of one container. The strategy is in `placements`; `resize`
/// computes it and `do_layout` carries it out.
pub trait LayoutManager: Sized {
    /// The container whose children the manager arranges.
    spec fn spec_widget_id(&self) -> i32;

    /// Where the strategy puts children of the extents `sizes`, now at `positions`, in a
    /// container of the extent `size`: one placement for each child, in the children's order.
    spec fn placements(&self, size: Size, sizes: Seq<Size>, positions: Seq<Point>) -> Seq<
        Placement,
    >;

    /// The container whose children the manager arranges.
    fn get_widget_id(&self) -> (widget_id: i32)
        ensures
            widget_id == self.spec_widget_id(),
    ;

    /// Computes where the children go in a container of the extent `size`. The store is only
    /// read, for the extents of the children.
    fn resize<W: Widget>(
        &mut self,
        size: Size,
        widget_ids: Vec<i32>,
        widget_positions: Vec<Point>,
        widget_store: &WidgetStore<W>,
    ) -> (placed: Vec<Placement>)
        requires
            widget_store.wf(),
        ensures
            *final(self) == *old(self),
            placed@.len() == widget_ids@.len(),
            placed@ == old(self).placements(
                size,
                child_sizes(widget_store@, widget_ids@),
                widget_positions@,
            ),
    ;

    /// Puts the children where the strategy says, given the extent that the container has
    /// now, and marks each for a redraw. Where the container is no widget of the store,
    /// nothing happens.
    fn do_layout<W: Widget>(
        &mut self,
        widget_ids: Vec<i32>,
        widget_positions: Vec<Point>,
        widget_store: &mut WidgetStore<W>,
    )
        requires
            old(widget_store).wf(),
        ensures
            *final(self) == *old(self),
            final(widget_store).wf(),
            same_shape(old(widget_store)@, final(widget_store)@),
            old(widget_store).has(old(self).spec_widget_id()) ==> laid_out(
                old(self).placements(
                    node_size(old(widget_store)@[old(self).spec_widget_id() as int]),
                    child_sizes(old(widget_store)@, widget_ids@),
                    widget_positions@,
                ),
                old(widget_store)@,
                old(widget_store).records(),
                widget_ids@,
                final(widget_store).records(),
            ),
            !old(widget_store).has(old(self).spec_widget_id()) ==> final(widget_store).records()
                == old(widget_store).records(),
    {
        let container = self.get_widget_id();
        let size = match widget_store.get_widget(container) {
            Ok(widget) => widget.get_size(),
            Err(_) => {
                return ;
            },
        };
        let ids = copy_ids(&widget_ids);
        let placed = self.resize(size, widget_ids, widget_positions, widget_store);
        let ghost before = widget_store.records();
        let ghost nodes = widget_store@;
        let mut k: usize = 0;
        while k < ids.len()
            invariant
                widget_store.wf(),
                k <= ids.len(),
                placed@.len() == ids@.len(),
                before == old(widget_store).records(),
                nodes == old(widget_store)@,
                is_forest(nodes),
                widget_store.records().len() == before.len(),
                same_shape(nodes, widget_store@),
                forall|id: int|
                    0 <= id < before.len() ==> same_place(
                        before[id],
                        #[trigger] widget_store.records()[id],
                    ),
                forall|id: int|
                    0 <= id < before.len() && !(alive(nodes, id) && ids@.take(k as int).contains(
                        id as i32,
                    )) ==> #[trigger] widget_store.records()[id] == before[id],
                forall|j: int|
                    0 <= j < k && alive(nodes, #[trigger] ids@[j] as int) && !ids@.take(
                        j,
                    ).contains(ids@[j]) ==> placed_as(
                        before[ids@[j] as int].widget,
                        placed@[j],
                        widget_store.records()[ids@[j] as int].widget,
                    ),
            decreases ids.len() - k,
        {
            let id = ids[k];
            let placement = placed[k];
            let ghost seen = ids@.take(k as int);
            let ghost now = ids@.take(k + 1);
            let ghost earlier = widget_store.records();
            proof {
                lemma_same_shape_same_alive(nodes, widget_store@, id as int);
                assert forall|other: i32| now.contains(other) <==> (seen.contains(other)
                    || other == id) by {
                    if seen.contains(other) {
                        let at = choose|at: int| 0 <= at < seen.len() && seen[at] == other;
                        assert(now[at] == other);
                    }
                    if other == id {
                        assert(now[k as int] == other);
                    }
                    if now.contains(other) {
                        let at = choose|at: int| 0 <= at < now.len() && now[at] == other;
                        if at < k {
                            assert(seen[at] == other);
                        }
                    }
                }
            }
            let repeated = named_before(&ids, k);
            if !repeated {
                match widget_store.get_widget_mut(id) {
                    Ok(widget) => {
                        let ghost start = *widget;
                        widget.set_config(CONFIG_ORIGIN, Config::Point(placement.origin));
                        let ghost first = *widget;
                        widget.set_config(CONFIG_BODY_SIZE, Config::Size(placement.size));
                        let ghost second = *widget;
                        widget.invalidate();
                        proof {
                            assert(start.configures(
                                CONFIG_ORIGIN,
                                Config::Point(placement.origin),
                                &first,
                            ));
                            assert(first.configures(
                                CONFIG_BODY_SIZE,
                                Config::Size(placement.size),
                                &second,
                            ));
                            assert(second.differs_in_config(&*widget));
                            assert(placed_as(start, placement, *widget));
                        }
                    },
                    Err(_) => {},
                }
            }
            proof {
                if !repeated && alive(nodes, id as int) {
                    assert(earlier[id as int] == before[id as int]);
                    assert forall|other: int|
                        0 <= other < before.len() && other != id
                            implies widget_store.records()[other]
                        == earlier[other] by {}
                    assert(same_shape(nodes, widget_store@)) by {
                        assert forall|other: int| 0 <= other < nodes.len() implies (
                        #[trigger] widget_store@[other]).parent == nodes[other].parent
                            && widget_store@[other].children == nodes[other].children
                            && widget_store@[other].removed == nodes[other].removed by {
                            assert(same_place(before[other], widget_store.records()[other]));
                        }
                    }
                    lemma_same_shape_is_forest(nodes, widget_store@);
                }
                assert forall|j: int|
                    0 <= j < k + 1 && alive(nodes, #[trigger] ids@[j] as int) && !ids@.take(
                        j,
                    ).contains(ids@[j]) implies placed_as(
                    before[ids@[j] as int].widget,
                    placed@[j],
                    widget_store.records()[ids@[j] as int].widget,
                ) by {
                    if j < k {
                        assert(seen[j] == ids@[j]);
                        assert(seen.contains(ids@[j]));
                        if !repeated {
                            assert(ids@[j] != id);
                        }
                        assert(widget_store.records()[ids@[j] as int] == earlier[ids@[j] as int]);
                    }
                }
            }
            k += 1;
        }
        proof {
            assert(ids@.take(ids.len() as int) =~= ids@);
        }
    }
}

} // verus!
