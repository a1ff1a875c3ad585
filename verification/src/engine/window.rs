use crate::engine::dispatcher::{
    all_addressed, dispatch, event_hits, initial_state, route, settle, top_hit, DispatchState,
    Dispatched,
};
use crate::engine::forest::{hit_sequence, same_shape};
use crate::engine::input::InputEvent;
use crate::engine::point::Point;
use crate::engine::widget_store::{
    delivered_all, holds_new, DrawRequest, WidgetStore,
};
use crate::widget::widget::Widget;
use vstd::prelude::*;

verus! {

/// One window's widgets together with what its dispatcher remembers. The window itself, and
/// what paints into it, belong to the application.
pub struct PushrodWindow<W: Widget> {
    widget_store: WidgetStore<W>,
    state: DispatchState,
}

impl<W: Widget> PushrodWindow<W> {
    /// The window's widgets.
    pub closed spec fn store(&self) -> WidgetStore<W> {
        self.widget_store
    }

    /// What the window's dispatcher remembers.
    pub closed spec fn session(&self) -> DispatchState {
        self.state
    }

    /// Whether the window's widgets are sound.
    pub open spec fn wf(&self) -> bool {
        self.store().wf()
    }

    /// A window without widgets, whose dispatcher has seen nothing yet.
    pub fn new() -> (window: Self)
        ensures
            window.wf(),
            window.store().records().len() == 0,
            window.session() == initial_state(),
    {
        Self { widget_store: WidgetStore::new(), state: DispatchState::new() }
    }

    /// The window's widgets, to read them.
    pub fn widget_store(&self) -> (store: &WidgetStore<W>)
        ensures
            *store == self.store(),
    {
        &self.widget_store
    }

    /// The window's widgets, to change them. The dispatcher keeps what it remembers.
    pub fn widget_store_mut(&mut self) -> (store: &mut WidgetStore<W>)
        ensures
            *store == old(self).store(),
            final(self).store() == *final(store),
            final(self).session() == old(self).session(),
    {
        &mut self.widget_store
    }

    /// What the window's dispatcher remembers.
    pub fn state(&self) -> (state: DispatchState)
        ensures
            state == self.session(),
    {
        self.state
    }

    /// Takes `widget` in as a root, on top of the roots that are there, and returns its id.
    pub fn add_widget(&mut self, widget: W) -> (widget_id: i32)
        requires
            old(self).wf(),
            old(self).store().records().len() < i32::MAX,
        ensures
            final(self).wf(),
            final(self).session() == old(self).session(),
            widget_id == old(self).store().records().len(),
            final(self).store().records().len() == old(self).store().records().len() + 1,
            final(self).store().records().drop_last() == old(self).store().records(),
            holds_new(final(self).store().records().last(), widget, widget_id, None),
            forall|id: i32|
                final(self).store().has(id) <==> old(self).store().has(id) || id == widget_id,
    {
        self.widget_store.add_widget(widget)
    }

    /// The topmost widget whose bounds hold `point`, a position in the window's space, if
    /// there is one.
    pub fn get_widget_id_for_point(&self, point: Point) -> (widget_id: Option<i32>)
        requires
            self.wf(),
        ensures
            widget_id == top_hit(hit_sequence(self.store()@, point)),
    {
        let hits = self.widget_store.widget_ids_at_point(point);
        if hits.len() > 0 {
            Some(hits[0])
        } else {
            None
        }
    }

    /// Takes one event of the window through the widgets, and returns what was delivered and
    /// what the widgets answered.
    pub fn handle_input(&mut self, event: &InputEvent) -> (outcome: Dispatched)
        requires
            old(self).wf(),
        ensures
            final(self).wf(),
            same_shape(old(self).store()@, final(self).store()@),
            (final(self).session(), outcome.events@) == route(
                settle(old(self).session(), old(self).store().ids()),
                *event,
                event_hits(old(self).store()@, *event),
            ),
            all_addressed(outcome.events@, old(self).store().ids()),
            final(self).store().ids() == old(self).store().ids(),
            delivered_all(
                old(self).store().records(),
                outcome.events@,
                final(self).store().records(),
                outcome.responses@,
            ),
    {
        dispatch(&mut self.state, event, &mut self.widget_store)
    }

    /// Paints what needs it: every widget that is marked for a redraw and not hidden, in the
    /// order of drawing. The dispatcher keeps what it remembers.
    pub fn redraw(&mut self) -> (requests: Vec<DrawRequest>)
        requires
            old(self).wf(),
        ensures
            final(self).wf(),
            final(self).session() == old(self).session(),
            old(self).store().redrawn(&final(self).store(), requests@),
    {
        self.widget_store.redraw()
    }
}

} // verus!
