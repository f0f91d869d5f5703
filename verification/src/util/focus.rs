use vstd::prelude::*;

use crate::util::geometry::{ClippingRect, Rect};
use crate::widget::{is_shift_held, shift_held, ConsumedStatus, Event, Keycode, SDLEvent};

verus! {

/// The identity of a focusable widget, and those of the widgets before and
/// after it in the tab order.
#[derive(Debug)]
pub struct FocusID {
    pub previous: String,
    pub me: String,
    pub next: String,
}

/// a widget can be the current focus. how a widget handles what that means is
/// up to it. only zero or one widgets should be focused at a time.
pub struct FocusManager(pub Option<String>);

impl Default for FocusManager {
    fn default() -> (r: Self)
        ensures
            r.focused() == None::<Seq<char>>,
    {
        FocusManager(None)
    }
}

/// the point lies in the position and is not clipped away
pub open spec fn point_in_position_and_clipping_rect_spec(
    x: i32,
    y: i32,
    position: Rect,
    clipping_rect: ClippingRect,
) -> bool {
    position.contains_spec(x, y) && clipping_rect.admits(x, y)
}

pub fn point_in_position_and_clipping_rect(
    x: i32,
    y: i32,
    position: Rect,
    clipping_rect: ClippingRect,
) -> (r: bool)
    ensures
        r == point_in_position_and_clipping_rect_spec(x, y, position, clipping_rect),
{
    if position.contains_point(x, y) {
        // ignore mouse events out of scroll area and position
        let point_contained_in_clipping_rect = match clipping_rect {
            ClippingRect::Clip(rect) => rect.contains_point(x, y),
            ClippingRect::Zero => false,
            ClippingRect::Unclipped => true,
        };
        if point_contained_in_clipping_rect {
            return true;
        }
    }
    false
}

/// The focus that the default widget focus behavior leaves, and whether it
/// consumes the event, for the widget `id` placed at `position`.
///
/// - mouse moved over widget gains focus
/// - if focused:
///     - tab goes to next, shift + tab goes to previous (consumes events)
///     - escape key causes unfocus (consumes event)
pub open spec fn widget_focus_spec(
    id: (Seq<char>, Seq<char>, Seq<char>),
    focus: Option<Seq<char>>,
    position: Option<Rect>,
    clipping_rect: ClippingRect,
    window_id: u32,
    e: Event,
) -> (Option<Seq<char>>, bool) {
    let (previous, me, next) = id;
    let focused = focus == Some(me);
    match e {
        Event::KeyDown { repeat, keycode: Some(Keycode::Tab), keymod, .. } => {
            if !focused {
                (focus, false)
            } else if repeat {
                (focus, true)
            } else if shift_held(keymod) {
                (Some(previous), true)
            } else {
                (Some(next), true)
            }
        },
        Event::KeyDown { repeat, keycode: Some(Keycode::Escape), .. } => {
            if !focused {
                (focus, false)
            } else if repeat {
                (focus, true)
            } else {
                (None, true)
            }
        },
        Event::MouseMotion { x, y, window_id: event_window, .. } => {
            if window_id != event_window {
                (focus, false)
            } else {
                match position {
                    Some(p) => if point_in_position_and_clipping_rect_spec(x, y, p, clipping_rect) {
                        (Some(me), false)
                    } else {
                        (focus, false)
                    },
                    None => (focus, false),
                }
            }
        },
        _ => (focus, false),
    }
}

/// The focus that the default start behavior leaves after one event.
pub open spec fn start_focus_step(
    focus: Option<Seq<char>>,
    ev: SDLEvent,
    start: Seq<char>,
    end: Seq<char>,
) -> Option<Seq<char>> {
    if !ev.is_available() {
        focus
    } else {
        match ev.ev() {
            Event::KeyDown { repeat, keycode: Some(Keycode::Tab), keymod, .. } => {
                if repeat {
                    focus
                } else if shift_held(keymod) {
                    Some(end)
                } else {
                    Some(start)
                }
            },
            _ => focus,
        }
    }
}

/// The focus that the default start behavior leaves after the events `evs`.
pub open spec fn start_focus_spec(
    focus: Option<Seq<char>>,
    evs: Seq<SDLEvent>,
    start: Seq<char>,
    end: Seq<char>,
) -> Option<Seq<char>>
    decreases evs.len(),
{
    if evs.len() == 0 {
        focus
    } else {
        start_focus_step(start_focus_spec(focus, evs.drop_last(), start, end), evs.last(), start, end)
    }
}

/// the default start behavior consumes this event
pub open spec fn start_focus_consumes(ev: SDLEvent) -> bool {
    ev.is_available() && (ev.ev() matches Event::KeyDown { keycode: Some(Keycode::Tab), .. })
}


/// Law: the default start behavior reacts only to tab: when no widget takes
/// an available, not repeated tab, it gives the focus to the first widget in
/// the tab order, or with shift to the last, and takes the tab (a repeated one
/// too); any other event, and an event already taken, leaves the focus as it
/// was and is not taken.
pub proof fn lemma_start_focus_tab(
    focus: Option<Seq<char>>,
    ev: SDLEvent,
    start: Seq<char>,
    end: Seq<char>,
)
    ensures
        start_focus_consumes(ev) <==> (ev.is_available() && ev.ev() is KeyDown && ev.ev()->KeyDown_keycode
            == Some(Keycode::Tab)),
        !start_focus_consumes(ev) ==> start_focus_step(focus, ev, start, end) == focus,
        ev.is_available() ==> (ev.ev() matches Event::KeyDown {
            keycode: Some(Keycode::Tab),
            repeat,
            keymod,
            ..
        } ==> start_focus_step(focus, ev, start, end) == if repeat {
            focus
        } else if keymod & 0x0001u16 != 0 || keymod & 0x0002u16 != 0 {
            Some(end)
        } else {
            Some(start)
        }),
{
}

/// Law: only zero or one widgets are focused at a time. Two widgets with
/// different identities are never both focused.
pub proof fn lemma_at_most_one_focused(fm: FocusManager, a: FocusID, b: FocusID)
    requires
        a.me@ != b.me@,
    ensures
        !(fm.focused() == Some(a.me@) && fm.focused() == Some(b.me@)),
{
}

/// Law: the default focus behavior never consumes a mouse motion event, and
/// a widget that is not focused does not consume any event: keys only apply
/// to the focused widget.
pub proof fn lemma_focus_behavior_consumes_only_when_focused(
    id: (Seq<char>, Seq<char>, Seq<char>),
    focus: Option<Seq<char>>,
    position: Option<Rect>,
    clipping_rect: ClippingRect,
    window_id: u32,
    e: Event,
)
    ensures
        e is MouseMotion ==> !widget_focus_spec(id, focus, position, clipping_rect, window_id, e).1,
        focus != Some(id.1) ==> !widget_focus_spec(
            id,
            focus,
            position,
            clipping_rect,
            window_id,
            e,
        ).1,
        focus != Some(id.1) && !(e is MouseMotion) ==> widget_focus_spec(
            id,
            focus,
            position,
            clipping_rect,
            window_id,
            e,
        ).0 == focus,
{
}

/// Law: for the focused widget, tab passes the focus to the next widget,
/// shift and tab to the previous one, and escape leaves no widget focused;
/// each of these consumes the key. A repeated key is consumed and changes
/// nothing.
pub proof fn lemma_focus_keys(
    id: (Seq<char>, Seq<char>, Seq<char>),
    position: Option<Rect>,
    clipping_rect: ClippingRect,
    window_id: u32,
    timestamp: u32,
    event_window: u32,
    keymod: u16,
    repeat: bool,
)
    ensures
        ({
            let tab = Event::KeyDown {
                timestamp,
                window_id: event_window,
                keycode: Some(Keycode::Tab),
                keymod,
                repeat,
            };
            let escape = Event::KeyDown {
                timestamp,
                window_id: event_window,
                keycode: Some(Keycode::Escape),
                keymod,
                repeat,
            };
            let focused = Some(id.1);
            &&& widget_focus_spec(id, focused, position, clipping_rect, window_id, tab) == if repeat {
                (focused, true)
            } else if shift_held(keymod) {
                (Some(id.0), true)
            } else {
                (Some(id.2), true)
            }
            &&& widget_focus_spec(id, focused, position, clipping_rect, window_id, escape) == if repeat {
                (focused, true)
            } else {
                (None, true)
            }
        }),
{
}

/// Law: moving the mouse over the visible part of a widget, in its window,
/// gives the widget the focus, whatever had it before.
pub proof fn lemma_hover_focuses(
    id: (Seq<char>, Seq<char>, Seq<char>),
    focus: Option<Seq<char>>,
    position: Rect,
    clipping_rect: ClippingRect,
    window_id: u32,
    timestamp: u32,
    left_pressed: bool,
    x: i32,
    y: i32,
)
    requires
        point_in_position_and_clipping_rect_spec(x, y, position, clipping_rect),
    ensures
        widget_focus_spec(
            id,
            focus,
            Some(position),
            clipping_rect,
            window_id,
            Event::MouseMotion { timestamp, window_id, left_pressed, x, y },
        ) == (Some(id.1), false),
{
}

impl FocusID {
    pub open spec fn view(&self) -> (Seq<char>, Seq<char>, Seq<char>) {
        (self.previous@, self.me@, self.next@)
    }
}

impl FocusManager {
    /// the identity of the focused widget, if any
    pub open spec fn focused(&self) -> Option<Seq<char>> {
        match self.0 {
            Some(s) => Some(s@),
            None => None,
        }
    }

    pub fn is_focused(&self, other: &FocusID) -> (r: bool)
        ensures
            r == (self.focused() == Some(other.me@)),
    {
        match &self.0 {
            Some(uid) => uid.eq(&other.me),
            None => false,
        }
    }

    /// handle default behavior for how focus should change given the events:
    /// - mouse moved over widget gains focus
    /// - if focused:
    ///     - tab goes to next, shift + tab goes to previous (consumes events)
    ///     - escape key causes unfocus (consumes event)
    ///
    /// `position` is the widget's position on the pixel grid; nothing if it
    /// has no area.
    pub fn default_widget_focus_behavior(
        my_focus_id: &FocusID,
        focus_manager: &mut FocusManager,
        position: Option<Rect>,
        clipping_rect: ClippingRect,
        window_id: u32,
        event: &mut SDLEvent,
    )
        requires
            widget_focus_spec(
                my_focus_id@,
                old(focus_manager).focused(),
                position,
                clipping_rect,
                window_id,
                old(event).ev(),
            ).1 ==> old(event).is_available(),
        ensures
            ({
                let (focus, consume) = widget_focus_spec(
                    my_focus_id@,
                    old(focus_manager).focused(),
                    position,
                    clipping_rect,
                    window_id,
                    old(event).ev(),
                );
                &&& final(focus_manager).focused() == focus
                &&& final(event).ev() == old(event).ev()
                &&& final(event).status() == if consume {
                    ConsumedStatus::ConsumedByWidget
                } else {
                    old(event).status()
                }
            }),
    {
        let focused = focus_manager.is_focused(my_focus_id);
        match event.event() {
            // keys:
            // - only applicable if currently focused
            // - consume key event once used
            Event::KeyDown { repeat, keycode: Some(Keycode::Tab), keymod, .. } => {
                let repeat = *repeat;
                let shift = is_shift_held(*keymod);
                if !focused {
                    return;  // only process tab if I am focused
                }
                event.set_consumed();
                if repeat {
                    return;
                }
                if shift {
                    // shift tab was pressed
                    focus_manager.0 = Some(my_focus_id.previous.clone());
                } else {
                    // tab was pressed
                    focus_manager.0 = Some(my_focus_id.next.clone());
                }
            },
            Event::KeyDown { repeat, keycode: Some(Keycode::Escape), .. } => {
                let repeat = *repeat;
                if !focused {
                    return;  // only process escape if I am focused
                }
                event.set_consumed();
                if repeat {
                    return;
                }
                focus_manager.0 = None;  // unfocus
            },
            Event::MouseMotion { x, y, window_id: event_window, .. } => {
                if window_id != *event_window {
                    return;  // not for me!
                }
                if let Some(position) = position {
                    if point_in_position_and_clipping_rect(*x, *y, position, clipping_rect) {
                        // even if not focused, if mouse is moved over widget
                        // then set focus to that widget
                        //
                        // generally never consume mouse motion events
                        focus_manager.0 = Some(my_focus_id.me.clone());
                    }
                }
            },
            _ => {},
        }
    }

    /// if tab or shift tab has not been consumed by any widget, then set the
    /// focus to the first or last widget, respectively
    pub fn default_start_focus_behavior(
        &mut self,
        events: &mut [SDLEvent],
        start_widget_focus_id: &str,
        end_widget_focus_id: &str,
    )
        ensures
            final(self).focused() == start_focus_spec(
                old(self).focused(),
                old(events)@,
                start_widget_focus_id@,
                end_widget_focus_id@,
            ),
            final(events)@.len() == old(events)@.len(),
            forall|i: int|
                0 <= i < old(events)@.len() ==> {
                    &&& (#[trigger] final(events)@[i]).ev() == old(events)@[i].ev()
                    &&& final(events)@[i].status() == if start_focus_consumes(old(events)@[i]) {
                        ConsumedStatus::ConsumedByWidget
                    } else {
                        old(events)@[i].status()
                    }
                },
    {
        let ghost initial = events@;
        let ghost focus0 = self.focused();
        let len = events.len();
        let mut i: usize = 0;
        while i < len
            invariant
                len == events@.len(),
                initial.len() == len,
                i <= len,
                self.focused() == start_focus_spec(
                    focus0,
                    initial.take(i as int),
                    start_widget_focus_id@,
                    end_widget_focus_id@,
                ),
                forall|k: int| i <= k < len ==> #[trigger] events@[k] == initial[k],
                forall|k: int|
                    0 <= k < i ==> {
                        &&& (#[trigger] events@[k]).ev() == initial[k].ev()
                        &&& events@[k].status() == if start_focus_consumes(initial[k]) {
                            ConsumedStatus::ConsumedByWidget
                        } else {
                            initial[k].status()
                        }
                    },
            decreases len - i,
        {
            assert(initial.take(i + 1).drop_last() == initial.take(i as int));
            if events[i].available() {
                let tab = match events[i].event() {
                    Event::KeyDown { repeat, keycode: Some(Keycode::Tab), keymod, .. } => Some(
                        (*repeat, is_shift_held(*keymod)),
                    ),
                    _ => None,
                };
                if let Some((repeat, shift)) = tab {
                    events[i].set_consumed();
                    if !repeat {
                        if shift {
                            // shift tab was pressed
                            self.0 = Some(end_widget_focus_id.to_owned());
                        } else {
                            // tab was pressed
                            self.0 = Some(start_widget_focus_id.to_owned());
                        }
                    }
                }
            }
            i = i + 1;
        }
        assert(initial.take(len as int) == initial);
    }
}

} // verus!
