use crate::engine::callbacks::{event_target, CallbackEvent, EventResponse};
use crate::engine::forest::{hit_sequence, same_shape, WidgetNode};
use crate::engine::input::{Button, ButtonState, InputEvent};
use crate::engine::point::Point;
use crate::engine::widget_store::{delivered_all, delivered_one, WidgetStore};
use crate::widget::widget::Widget;
use vstd::prelude::*;

verus! {

/// The widget that holds the pointer, and the button that made it so.
#[derive(Clone, Copy, Debug, PartialEq, Eq, Structural)]
pub struct Capture {
    pub widget_id: i32,
    pub button: Button,
}

/// What the dispatcher remembers from one event to the next, for as long as the window lives.
#[derive(Clone, Copy, Debug, PartialEq, Eq, Structural)]
pub struct DispatchState {
    /// The widget under the pointer, if any.
    pub hover: Option<i32>,
    /// The widget that holds the pointer since a button went down over it, if any.
    pub capture: Option<Capture>,
    /// Where the pointer was last seen.
    pub last_point: Point,
}

/// What becomes of one event: the dispatcher's next state, and the events for the widgets in
/// the order in which they are delivered.
#[derive(Debug, PartialEq, Eq)]
pub struct Routing {
    pub state: DispatchState,
    pub events: Vec<CallbackEvent>,
}

/// The state of a dispatcher that has seen nothing yet.
pub open spec fn initial_state() -> DispatchState {
    DispatchState { hover: None, capture: None, last_point: Point { x: 0, y: 0 } }
}

/// The position that an event of the window comes with, if it comes with one.
pub open spec fn event_point(event: InputEvent) -> Option<Point> {
    match event {
        InputEvent::PointerMoved { point } => Some(point),
        InputEvent::ButtonDown { point, .. } => Some(point),
        InputEvent::ButtonUp { point, .. } => Some(point),
        InputEvent::Scroll { point, .. } => Some(point),
        InputEvent::KeyDown { .. } => None,
        InputEvent::KeyUp { .. } => None,
    }
}

/// The topmost of the widgets under the pointer, if there is any.
pub open spec fn top_hit(hits: Seq<i32>) -> Option<i32> {
    if hits.len() > 0 {
        Some(hits[0])
    } else {
        None
    }
}

/// The state without the ids that are not among `known`: a widget that is gone neither holds
/// the pointer nor lies under it.
pub open spec fn settle(state: DispatchState, known: Set<i32>) -> DispatchState {
    DispatchState {
        hover: match state.hover {
            Some(id) => if known.contains(id) {
                Some(id)
            } else {
                None
            },
            None => None,
        },
        capture: match state.capture {
            Some(capture) => if known.contains(capture.widget_id) {
                Some(capture)
            } else {
                None
            },
            None => None,
        },
        last_point: state.last_point,
    }
}

/// The events that tell the widgets that the pointer went from over `from` to over `to`: the
/// one it left hears of it first, then the one it entered. Where it stayed, nobody hears.
pub open spec fn hover_events(from: Option<i32>, to: Option<i32>) -> Seq<CallbackEvent> {
    if from == to {
        Seq::empty()
    } else {
        (match from {
            Some(widget_id) => seq![CallbackEvent::MouseExited { widget_id }],
            None => Seq::empty(),
        }) + (match to {
            Some(widget_id) => seq![CallbackEvent::MouseEntered { widget_id }],
            None => Seq::empty(),
        })
    }
}

/// The event that tells the widget `widget_id` what `event` of the window means to it, given
/// whether the widget lies under the pointer. An event without a position reaches it as a key.
pub open spec fn widget_event(event: InputEvent, widget_id: i32, inside: bool) -> CallbackEvent {
    match event {
        InputEvent::PointerMoved { point } => CallbackEvent::MouseMoved { widget_id, point },
        InputEvent::ButtonDown { button, .. } => CallbackEvent::MouseButtonDown {
            widget_id,
            button,
        },
        InputEvent::ButtonUp { button, .. } => if inside {
            CallbackEvent::MouseButtonUpInside { widget_id, button }
        } else {
            CallbackEvent::MouseButtonUpOutside { widget_id, button }
        },
        InputEvent::Scroll { delta, .. } => CallbackEvent::MouseScrolled {
            widget_id,
            point: delta,
        },
        InputEvent::KeyDown { key } => CallbackEvent::KeyPressed {
            widget_id,
            key,
            state: ButtonState::Press,
        },
        InputEvent::KeyUp { key } => CallbackEvent::KeyPressed {
            widget_id,
            key,
            state: ButtonState::Release,
        },
    }
}

/// Whether `event` is the release of the button that `capture` began with.
pub open spec fn releases(event: InputEvent, capture: Capture) -> bool {
    event matches InputEvent::ButtonUp { button, .. } && button == capture.button
}

/// What becomes of `event` while the widget of `capture` holds the pointer: the widget gets
/// the event, wherever the pointer is. The release of the button that began the capture ends
/// it, and then the widgets hear where the pointer is now.
pub open spec fn route_captured(
    state: DispatchState,
    capture: Capture,
    event: InputEvent,
    hits: Seq<i32>,
) -> (DispatchState, Seq<CallbackEvent>) {
    let own = seq![widget_event(event, capture.widget_id, hits.contains(capture.widget_id))];
    match event_point(event) {
        Some(point) => if releases(event, capture) {
            (
                DispatchState { hover: top_hit(hits), capture: None, last_point: point },
                own + hover_events(state.hover, top_hit(hits)),
            )
        } else {
            (
                DispatchState { hover: state.hover, capture: state.capture, last_point: point },
                own,
            )
        },
        None => (state, own),
    }
}

/// What becomes of `event` while no widget holds the pointer. An event with a position first
/// tells the widgets where the pointer is now; then the topmost widget under the pointer gets
/// the event, but for the release of a button, which nobody gets. A button that goes down over
/// a widget makes that widget hold the pointer. A key goes to the widget under the pointer.
pub open spec fn route_free(state: DispatchState, event: InputEvent, hits: Seq<i32>) -> (
    DispatchState,
    Seq<CallbackEvent>,
) {
    let top = top_hit(hits);
    match event_point(event) {
        Some(point) => {
            let moved = hover_events(state.hover, top);
            match top {
                Some(widget_id) => match event {
                    InputEvent::ButtonUp { .. } => (
                        DispatchState { hover: top, capture: None, last_point: point },
                        moved,
                    ),
                    InputEvent::ButtonDown { button, .. } => (
                        DispatchState {
                            hover: top,
                            capture: Some(Capture { widget_id, button }),
                            last_point: point,
                        },
                        moved + seq![widget_event(event, widget_id, true)],
                    ),
                    _ => (
                        DispatchState { hover: top, capture: None, last_point: point },
                        moved + seq![widget_event(event, widget_id, true)],
                    ),
                },
                None => (DispatchState { hover: None, capture: None, last_point: point }, moved),
            }
        },
        None => match state.hover {
            Some(widget_id) => (state, seq![widget_event(event, widget_id, true)]),
            None => (state, Seq::empty()),
        },
    }
}

/// What becomes of `event` in `state`, where `hits` are the widgets under the event's
/// position, from the topmost to the bottommost.
pub open spec fn route(state: DispatchState, event: InputEvent, hits: Seq<i32>) -> (
    DispatchState,
    Seq<CallbackEvent>,
) {
    match state.capture {
        Some(capture) => route_captured(state, capture, event, hits),
        None => route_free(state, event, hits),
    }
}

impl DispatchState {
    /// The state of a dispatcher that has seen nothing yet: no widget under the pointer, none
    /// holding it, and the pointer at `(0, 0)`.
    pub fn new() -> (state: Self)
        ensures
            state == initial_state(),
    {
        DispatchState { hover: None, capture: None, last_point: Point { x: 0, y: 0 } }
    }

    /// Forgets the ids that name no widget of `store`.
    pub fn settled<W: Widget>(&self, store: &WidgetStore<W>) -> (state: Self)
        requires
            store.wf(),
        ensures
            state == settle(*self, store.ids()),
    {
        let hover = match self.hover {
            Some(id) => if store.is_alive(id) {
                Some(id)
            } else {
                None
            },
            None => None,
        };
        let capture = match self.capture {
            Some(capture) => if store.is_alive(capture.widget_id) {
                Some(capture)
            } else {
                None
            },
            None => None,
        };
        DispatchState { hover, capture, last_point: self.last_point }
    }
}

/// Whether `id` is among `ids`.
pub fn contains_id(ids: &Vec<i32>, id: i32) -> (found: bool)
    ensures
        found == ids@.contains(id),
{
    let mut i: usize = 0;
    while i < ids.len()
        invariant
            i <= ids.len(),
            forall|j: int| 0 <= j < i ==> ids@[j] != id,
        decreases ids.len() - i,
    {
        if ids[i] == id {
            return true;
        }
        i += 1;
    }
    false
}

/// The position that an event of the window comes with, if it comes with one.
pub fn point_of_event(event: &InputEvent) -> (point: Option<Point>)
    ensures
        point == event_point(*event),
{
    match event {
        InputEvent::PointerMoved { point } => Some(*point),
        InputEvent::ButtonDown { point, .. } => Some(*point),
        InputEvent::ButtonUp { point, .. } => Some(*point),
        InputEvent::Scroll { point, .. } => Some(*point),
        InputEvent::KeyDown { .. } => None,
        InputEvent::KeyUp { .. } => None,
    }
}

/// The event that tells the widget `widget_id` what `event` of the window means to it.
fn event_for_widget(event: &InputEvent, widget_id: i32, inside: bool) -> (made: CallbackEvent)
    ensures
        made == widget_event(*event, widget_id, inside),
{
    match event {
        InputEvent::PointerMoved { point } => CallbackEvent::MouseMoved {
            widget_id,
            point: *point,
        },
        InputEvent::ButtonDown { button, .. } => CallbackEvent::MouseButtonDown {
            widget_id,
            button: *button,
        },
        InputEvent::ButtonUp { button, .. } => if inside {
            CallbackEvent::MouseButtonUpInside { widget_id, button: *button }
        } else {
            CallbackEvent::MouseButtonUpOutside { widget_id, button: *button }
        },
        InputEvent::Scroll { delta, .. } => CallbackEvent::MouseScrolled {
            widget_id,
            point: *delta,
        },
        InputEvent::KeyDown { key } => CallbackEvent::KeyPressed {
            widget_id,
            key: *key,
            state: ButtonState::Press,
        },
        InputEvent::KeyUp { key } => CallbackEvent::KeyPressed {
            widget_id,
            key: *key,
            state: ButtonState::Release,
        },
    }
}

/// Appends the events that tell the widgets that the pointer went from over `from` to over
/// `to`.
fn push_hover_events(events: &mut Vec<CallbackEvent>, from: Option<i32>, to: Option<i32>)
    ensures
        final(events)@ == old(events)@ + hover_events(from, to),
{
    if from != to {
        match from {
            Some(widget_id) => {
                events.push(CallbackEvent::MouseExited { widget_id });
            },
            None => {},
        }
        match to {
            Some(widget_id) => {
                events.push(CallbackEvent::MouseEntered { widget_id });
            },
            None => {},
        }
    }
    assert(final(events)@ =~= old(events)@ + hover_events(from, to));
}

/// Decides what becomes of `event` in `state`, where `hits` are the widgets under the event's
/// position, from the topmost to the bottommost. While a widget holds the pointer it gets
/// every event; otherwise the topmost widget under the pointer does.
pub fn route_event(state: &DispatchState, event: &InputEvent, hits: &Vec<i32>) -> (routing:
    Routing)
    ensures
        (routing.state, routing.events@) == route(*state, *event, hits@),
{
    let mut events: Vec<CallbackEvent> = Vec::new();
    let top: Option<i32> = if hits.len() > 0 {
        Some(hits[0])
    } else {
        None
    };
    let place = point_of_event(event);
    match state.capture {
        Some(capture) => {
            let inside = contains_id(hits, capture.widget_id);
            events.push(event_for_widget(event, capture.widget_id, inside));
            let released = match event {
                InputEvent::ButtonUp { button, .. } => *button == capture.button,
                _ => false,
            };
            match place {
                Some(point) => {
                    if released {
                        push_hover_events(&mut events, state.hover, top);
                        Routing {
                            state: DispatchState { hover: top, capture: None, last_point: point },
                            events,
                        }
                    } else {
                        Routing {
                            state: DispatchState {
                                hover: state.hover,
                                capture: state.capture,
                                last_point: point,
                            },
                            events,
                        }
                    }
                },
                None => Routing { state: *state, events },
            }
        },
        None => {
            match place {
                Some(point) => {
                    push_hover_events(&mut events, state.hover, top);
                    match top {
                        Some(widget_id) => {
                            match event {
                                InputEvent::ButtonUp { .. } => Routing {
                                    state: DispatchState {
                                        hover: top,
                                        capture: None,
                                        last_point: point,
                                    },
                                    events,
                                },
                                InputEvent::ButtonDown { button, .. } => {
                                    events.push(event_for_widget(event, widget_id, true));
                                    Routing {
                                        state: DispatchState {
                                            hover: top,
                                            capture: Some(
                                                Capture { widget_id, button: *button },
                                            ),
                                            last_point: point,
                                        },
                                        events,
                                    }
                                },
                                _ => {
                                    events.push(event_for_widget(event, widget_id, true));
                                    Routing {
                                        state: DispatchState {
                                            hover: top,
                                            capture: None,
                                            last_point: point,
                                        },
                                        events,
                                    }
                                },
                            }
                        },
                        None => Routing {
                            state: DispatchState { hover: None, capture: None, last_point: point },
                            events,
                        },
                    }
                },
                None => {
                    match state.hover {
                        Some(widget_id) => {
                            events.push(event_for_widget(event, widget_id, true));
                            Routing { state: *state, events }
                        },
                        None => Routing { state: *state, events },
                    }
                },
            }
        },
    }
}

/// What the widgets made of one event of the window: the events that were delivered, in
/// their order, and the answer to each.
#[derive(Debug, PartialEq, Eq)]
pub struct Dispatched {
    pub events: Vec<CallbackEvent>,
    pub responses: Vec<EventResponse>,
}

/// The widgets under the position of `event`, from the topmost to the bottommost; none where
/// the event comes without a position.
pub open spec fn event_hits(nodes: Seq<WidgetNode>, event: InputEvent) -> Seq<i32> {
    match event_point(event) {
        Some(point) => hit_sequence(nodes, point),
        None => Seq::empty(),
    }
}

/// Whether every id among `ids` is among `known`.
pub open spec fn all_known(ids: Seq<i32>, known: Set<i32>) -> bool {
    forall|k: int| 0 <= k < ids.len() ==> known.contains(#[trigger] ids[k])
}

/// Whether every event among `events` is addressed to a widget among `known`.
pub open spec fn all_addressed(events: Seq<CallbackEvent>, known: Set<i32>) -> bool {
    forall|k: int| 0 <= k < events.len() ==> known.contains(event_target(#[trigger] events[k]))
}

/// A dispatcher that remembers only widgets that exist, and is told only of such widgets
/// under the pointer, addresses events only to such widgets and goes on remembering only
/// such widgets.
pub proof fn lemma_route_addresses_widgets(
    state: DispatchState,
    event: InputEvent,
    hits: Seq<i32>,
    known: Set<i32>,
)
    requires
        settle(state, known) == state,
        all_known(hits, known),
    ensures
        all_addressed(route(state, event, hits).1, known),
        settle(route(state, event, hits).0, known) == route(state, event, hits).0,
{
    let top = top_hit(hits);
    let moved = hover_events(state.hover, top);
    if hits.len() > 0 {
        assert(known.contains(hits[0]));
    }
    assert(all_addressed(moved, known)) by {
        if state.hover != top {
            let left: Seq<CallbackEvent> = match state.hover {
                Some(widget_id) => seq![CallbackEvent::MouseExited { widget_id }],
                None => Seq::empty(),
            };
            let came: Seq<CallbackEvent> = match top {
                Some(widget_id) => seq![CallbackEvent::MouseEntered { widget_id }],
                None => Seq::empty(),
            };
            assert(moved == left + came);
            assert forall|k: int| 0 <= k < moved.len() implies known.contains(
                event_target(#[trigger] moved[k]),
            ) by {
                if k < left.len() {
                    assert(moved[k] == left[k]);
                } else {
                    assert(moved[k] == came[k - left.len()]);
                }
            }
        }
    }
    let events = route(state, event, hits).1;
    assert forall|k: int| 0 <= k < events.len() implies known.contains(
        event_target(#[trigger] events[k]),
    ) by {
        match state.capture {
            Some(capture) => {
                let own = seq![
                    widget_event(event, capture.widget_id, hits.contains(capture.widget_id)),
                ];
                if events == own + moved {
                    if k >= 1 {
                        assert(events[k] == moved[k - 1]);
                    }
                }
            },
            None => {
                if event_point(event) is Some && k < moved.len() {
                    assert(events[k] == moved[k]);
                }
            },
        }
    }
}

/// Takes one event of the window through the widgets. The dispatcher forgets widgets that are
/// gone, finds the widgets under the pointer, decides who gets which event as `route` says,
/// and hands the events over one after the other. Every event goes to a widget of the store,
/// and the widgets stay in their places.
pub fn dispatch<W: Widget>(
    state: &mut DispatchState,
    event: &InputEvent,
    store: &mut WidgetStore<W>,
) -> (outcome: Dispatched)
    requires
        old(store).wf(),
    ensures
        final(store).wf(),
        same_shape(old(store)@, final(store)@),
        (*final(state), outcome.events@) == route(
            settle(*old(state), old(store).ids()),
            *event,
            event_hits(old(store)@, *event),
        ),
        settle(*final(state), old(store).ids()) == *final(state),
        all_addressed(outcome.events@, old(store).ids()),
        final(store).ids() == old(store).ids(),
        delivered_all(
            old(store).records(),
            outcome.events@,
            final(store).records(),
            outcome.responses@,
        ),
{
    let settled = state.settled(store);
    let hits = match point_of_event(event) {
        Some(point) => store.widget_ids_at_point(point),
        None => Vec::new(),
    };
    let routing = route_event(&settled, event, &hits);
    proof {
        lemma_route_addresses_widgets(settled, *event, hits@, store.ids());
    }
    *state = routing.state;
    let events = routing.events;
    let mut responses: Vec<EventResponse> = Vec::new();
    let ghost start = store.records();
    let ghost known = store.ids();
    let mut i: usize = 0;
    while i < events.len()
        invariant
            store.wf(),
            i <= events.len(),
            responses.len() == i,
            store.records().len() == start.len(),
            same_shape(old(store)@, store@),
            store.ids() == known,
            all_addressed(events@, known),
            delivered_all(start, events@.take(i as int), store.records(), responses@),
        decreases events.len() - i,
    {
        let ghost mid = store.records();
        let ghost answered = responses@;
        assert(known.contains(event_target(events@[i as int])));
        let response = match store.deliver(false, events[i]) {
            Ok(response) => response,
            Err(_) => EventResponse { derived: None, call: None },
        };
        responses.push(response);
        proof {
            let prefix = events@.take(i + 1);
            assert(prefix.drop_last() =~= events@.take(i as int));
            assert(prefix.last() == events@[i as int]);
            assert(responses@.drop_last() =~= answered);
            assert(responses@.last() == response);
            assert(delivered_one(mid, false, prefix.last(), store.records(), responses@.last()));
        }
        i += 1;
    }
    proof {
        assert(events@.take(events.len() as int) =~= events@);
    }
    Dispatched { events, responses }
}

} // verus!
