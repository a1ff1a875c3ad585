use crate::engine::callbacks::CallbackEvent;
use crate::engine::dispatcher::{
    hover_events, releases, route, route_free, top_hit, widget_event, Capture, DispatchState,
};
use crate::engine::input::InputEvent;
use crate::engine::point::Point;
use vstd::prelude::*;

verus! {

/// One event of the window together with the widgets that were under its position.
pub struct Step {
    pub event: InputEvent,
    pub hits: Seq<i32>,
}

/// The dispatcher's state after it took `steps`, one after the other, from `state` on.
pub open spec fn state_after(state: DispatchState, steps: Seq<Step>) -> DispatchState
    decreases steps.len(),
{
    if steps.len() == 0 {
        state
    } else {
        route(state_after(state, steps.drop_last()), steps.last().event, steps.last().hits).0
    }
}

/// All events that the widgets got while the dispatcher took `steps` from `state` on.
pub open spec fn events_during(state: DispatchState, steps: Seq<Step>) -> Seq<CallbackEvent>
    decreases steps.len(),
{
    if steps.len() == 0 {
        Seq::empty()
    } else {
        events_during(state, steps.drop_last()) + route(
            state_after(state, steps.drop_last()),
            steps.last().event,
            steps.last().hits,
        ).1
    }
}

/// How often `wanted` occurs among `events`.
pub open spec fn occurrences(events: Seq<CallbackEvent>, wanted: CallbackEvent) -> int
    decreases events.len(),
{
    if events.len() == 0 {
        0
    } else {
        occurrences(events.drop_last(), wanted) + if events.last() == wanted {
            1int
        } else {
            0int
        }
    }
}

/// 1 where the pointer is over the widget `widget_id`, and 0 where it is not.
pub open spec fn hovering(state: DispatchState, widget_id: i32) -> int {
    if state.hover == Some(widget_id) {
        1
    } else {
        0
    }
}

/// Occurrences add up over two runs of events.
pub proof fn lemma_occurrences_add(
    first: Seq<CallbackEvent>,
    second: Seq<CallbackEvent>,
    wanted: CallbackEvent,
)
    ensures
        occurrences(first + second, wanted) == occurrences(first, wanted) + occurrences(
            second,
            wanted,
        ),
    decreases second.len(),
{
    if second.len() == 0 {
        assert(first + second =~= first);
    } else {
        assert((first + second).drop_last() =~= first + second.drop_last());
        assert((first + second).last() == second.last());
        lemma_occurrences_add(first, second.drop_last(), wanted);
    }
}

/// A single event occurs once if it is the wanted one, and not at all otherwise.
pub proof fn lemma_occurrences_single(event: CallbackEvent, wanted: CallbackEvent)
    ensures
        occurrences(seq![event], wanted) == if event == wanted {
            1int
        } else {
            0int
        },
{
    assert(seq![event].drop_last() =~= Seq::<CallbackEvent>::empty());
    assert(seq![event].last() == event);
    assert(occurrences(seq![event].drop_last(), wanted) == 0);
}

/// The events that tell of the pointer's way from one widget to another hold, for every
/// widget, an entry where the pointer comes to be over it and an exit where it ceases to be.
pub proof fn lemma_hover_events_balance(from: Option<i32>, to: Option<i32>, widget_id: i32)
    ensures
        occurrences(hover_events(from, to), CallbackEvent::MouseEntered { widget_id })
            - occurrences(hover_events(from, to), CallbackEvent::MouseExited { widget_id })
                == (if to
            == Some(widget_id) {
            1int
        } else {
            0int
        }) - (if from == Some(widget_id) {
            1int
        } else {
            0int
        }),
{
    let entered = CallbackEvent::MouseEntered { widget_id };
    let exited = CallbackEvent::MouseExited { widget_id };
    if from != to {
        let left: Seq<CallbackEvent> = match from {
            Some(id) => seq![CallbackEvent::MouseExited { widget_id: id }],
            None => Seq::empty(),
        };
        let came: Seq<CallbackEvent> = match to {
            Some(id) => seq![CallbackEvent::MouseEntered { widget_id: id }],
            None => Seq::empty(),
        };
        assert(hover_events(from, to) == left + came);
        lemma_occurrences_add(left, came, entered);
        lemma_occurrences_add(left, came, exited);
        match from {
            Some(id) => {
                lemma_occurrences_single(CallbackEvent::MouseExited { widget_id: id }, entered);
                lemma_occurrences_single(CallbackEvent::MouseExited { widget_id: id }, exited);
            },
            None => {},
        }
        match to {
            Some(id) => {
                lemma_occurrences_single(CallbackEvent::MouseEntered { widget_id: id }, entered);
                lemma_occurrences_single(CallbackEvent::MouseEntered { widget_id: id }, exited);
            },
            None => {},
        }
    }
}

/// In one step, a widget gets one entry more than exits exactly where the pointer comes to be
/// over it, and one exit more than entries exactly where the pointer ceases to be over it.
pub proof fn lemma_step_balance(
    state: DispatchState,
    event: InputEvent,
    hits: Seq<i32>,
    widget_id: i32,
)
    ensures
        occurrences(route(state, event, hits).1, CallbackEvent::MouseEntered { widget_id })
            - occurrences(route(state, event, hits).1, CallbackEvent::MouseExited { widget_id })
            == hovering(route(state, event, hits).0, widget_id) - hovering(state, widget_id),
{
    let entered = CallbackEvent::MouseEntered { widget_id };
    let exited = CallbackEvent::MouseExited { widget_id };
    let top = top_hit(hits);
    let moved = hover_events(state.hover, top);
    let events = route(state, event, hits).1;
    lemma_hover_events_balance(state.hover, top, widget_id);
    let none = Seq::<CallbackEvent>::empty();
    assert(occurrences(none, entered) == 0 && occurrences(none, exited) == 0);
    match state.capture {
        Some(capture) => {
            let own = widget_event(event, capture.widget_id, hits.contains(capture.widget_id));
            lemma_occurrences_single(own, entered);
            lemma_occurrences_single(own, exited);
            if events == seq![own] + moved {
                lemma_occurrences_add(seq![own], moved, entered);
                lemma_occurrences_add(seq![own], moved, exited);
            } else {
                assert(events == seq![own]);
            }
        },
        None => {
            match top {
                Some(id) => {
                    let own = widget_event(event, id, true);
                    lemma_occurrences_single(own, entered);
                    lemma_occurrences_single(own, exited);
                    if events == moved + seq![own] {
                        lemma_occurrences_add(moved, seq![own], entered);
                        lemma_occurrences_add(moved, seq![own], exited);
                    }
                },
                None => {},
            }
            match state.hover {
                Some(id) => {
                    let own = widget_event(event, id, true);
                    lemma_occurrences_single(own, entered);
                    lemma_occurrences_single(own, exited);
                },
                None => {},
            }
        },
    }
}

/// Entries and exits pair up. Over any run of events of the window, whatever lay under the
/// pointer each time, the entries that a widget got outnumber its exits by one where the
/// pointer ends over the widget without having begun there, the exits outnumber the entries by
/// one in the opposite case, and the two are equal in number otherwise.
pub proof fn lemma_entries_match_exits(state: DispatchState, steps: Seq<Step>, widget_id: i32)
    ensures
        occurrences(events_during(state, steps), CallbackEvent::MouseEntered { widget_id })
            - occurrences(events_during(state, steps), CallbackEvent::MouseExited { widget_id })
            == hovering(state_after(state, steps), widget_id) - hovering(state, widget_id),
    decreases steps.len(),
{
    if steps.len() > 0 {
        let before = state_after(state, steps.drop_last());
        let earlier = events_during(state, steps.drop_last());
        let now = route(before, steps.last().event, steps.last().hits).1;
        lemma_entries_match_exits(state, steps.drop_last(), widget_id);
        lemma_step_balance(before, steps.last().event, steps.last().hits, widget_id);
        lemma_occurrences_add(earlier, now, CallbackEvent::MouseEntered { widget_id });
        lemma_occurrences_add(earlier, now, CallbackEvent::MouseExited { widget_id });
    }
}

/// From a state in which the pointer is over no widget, a widget never has more exits than
/// entries, and at most one entry more than exits: the one that no exit has answered yet.
pub proof fn lemma_at_most_one_pending_entry(
    state: DispatchState,
    steps: Seq<Step>,
    widget_id: i32,
)
    requires
        state.hover is None,
    ensures
        0 <= occurrences(events_during(state, steps), CallbackEvent::MouseEntered { widget_id })
            - occurrences(events_during(state, steps), CallbackEvent::MouseExited { widget_id })
            <= 1,
{
    lemma_entries_match_exits(state, steps, widget_id);
}

/// Whether none of `steps` is the release of the button that `capture` began with.
pub open spec fn none_releases(steps: Seq<Step>, capture: Capture) -> bool {
    forall|k: int| 0 <= k < steps.len() ==> !releases((#[trigger] steps[k]).event, capture)
}

/// A button that goes down over a widget, while no widget holds the pointer, makes the topmost
/// widget under the pointer hold it.
pub proof fn lemma_button_down_captures(
    state: DispatchState,
    event: InputEvent,
    hits: Seq<i32>,
)
    requires
        state.capture is None,
        event is ButtonDown,
        hits.len() > 0,
    ensures
        route(state, event, hits).0.capture == Some(
            Capture { widget_id: hits[0], button: event->ButtonDown_button },
        ),
{
}

/// A capture lasts until the button that began it comes up: whatever else happens, and
/// wherever the pointer goes, the same widget holds the pointer afterwards.
pub proof fn lemma_capture_lasts(state: DispatchState, capture: Capture, steps: Seq<Step>)
    requires
        state.capture == Some(capture),
        none_releases(steps, capture),
    ensures
        state_after(state, steps).capture == Some(capture),
    decreases steps.len(),
{
    if steps.len() > 0 {
        assert forall|k: int| 0 <= k < steps.drop_last().len() implies !releases(
            (#[trigger] steps.drop_last()[k]).event,
            capture,
        ) by {
            assert(steps.drop_last()[k] == steps[k]);
        }
        lemma_capture_lasts(state, capture, steps.drop_last());
        assert(!releases(steps[steps.len() - 1].event, capture));
    }
}

/// While a widget holds the pointer, every move of the pointer goes to that widget and to no
/// other, whatever lies under the pointer: after any steps that do not release the capture,
/// a move to `point` is delivered as one `MouseMoved` to the capturing widget.
pub proof fn lemma_captured_moves_go_to_captor(
    state: DispatchState,
    capture: Capture,
    steps: Seq<Step>,
    point: Point,
    hits: Seq<i32>,
)
    requires
        state.capture == Some(capture),
        none_releases(steps, capture),
    ensures
        route(state_after(state, steps), InputEvent::PointerMoved { point }, hits).1 == seq![
            CallbackEvent::MouseMoved { widget_id: capture.widget_id, point },
        ],
        route(state_after(state, steps), InputEvent::PointerMoved { point }, hits).0.capture
            == Some(capture),
{
    lemma_capture_lasts(state, capture, steps);
}

/// The release of the button that began a capture ends the capture, and from then on the
/// widgets under the pointer decide again who gets an event.
pub proof fn lemma_release_ends_capture(
    state: DispatchState,
    capture: Capture,
    release: InputEvent,
    hits: Seq<i32>,
    next: InputEvent,
    next_hits: Seq<i32>,
)
    requires
        state.capture == Some(capture),
        releases(release, capture),
    ensures
        route(state, release, hits).0.capture is None,
        route(state, release, hits).0.hover == top_hit(hits),
        route(route(state, release, hits).0, next, next_hits) == route_free(
            route(state, release, hits).0,
            next,
            next_hits,
        ),
{
}

} // verus!
