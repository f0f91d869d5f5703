use vstd::prelude::*;

use crate::util::focus::{point_in_position_and_clipping_rect, point_in_position_and_clipping_rect_spec};
use crate::util::geometry::{ClippingRect, Point, Rect};
use crate::util::render::point_at;
use crate::widget::{ConsumedStatus, Event, MouseButton, SDLEvent};

verus! {

/// the debug widget at `position` takes this event as a click: an available
/// release of the left mouse button, in its window, over its visible part
pub open spec fn debug_click(position: Rect, clipping_rect: ClippingRect, window_id: u32, ev: SDLEvent) -> bool {
    &&& ev.is_available()
    &&& ev.ev() matches Event::MouseButtonUp { mouse_btn: MouseButton::Left, x, y, window_id: w, .. }
    &&& w == window_id
    &&& point_in_position_and_clipping_rect_spec(x, y, position, clipping_rect)
}

/// Law: only a release of the left mouse button counts as a click on the
/// debug widget, and only in its window, over its visible part, while still
/// available: a press never does, nor another button, nor a release elsewhere.
pub proof fn lemma_debug_click_is_left_release(
    position: Rect,
    clipping_rect: ClippingRect,
    window_id: u32,
    ev: SDLEvent,
)
    ensures
        debug_click(position, clipping_rect, window_id, ev) ==> {
            &&& ev.is_available()
            &&& ev.ev() is MouseButtonUp
            &&& ev.ev()->MouseButtonUp_mouse_btn == MouseButton::Left
            &&& ev.ev()->MouseButtonUp_window_id == window_id
            &&& point_in_position_and_clipping_rect_spec(
                ev.ev()->MouseButtonUp_x,
                ev.ev()->MouseButtonUp_y,
                position,
                clipping_rect,
            )
        },
        ev.is_available() && ev.ev() is MouseButtonUp && ev.ev()->MouseButtonUp_mouse_btn
            == MouseButton::Left && ev.ev()->MouseButtonUp_window_id == window_id
            && point_in_position_and_clipping_rect_spec(
            ev.ev()->MouseButtonUp_x,
            ev.ev()->MouseButtonUp_y,
            position,
            clipping_rect,
        ) ==> debug_click(position, clipping_rect, window_id, ev),
{
}

/// The update of the debug widget: it consumes each click on it, and reports
/// whether it was clicked this frame. A widget without area is not clicked.
pub fn debug_update_clicks(
    position: Option<Rect>,
    clipping_rect: ClippingRect,
    window_id: u32,
    events: &mut [SDLEvent],
) -> (clicked: bool)
    ensures
        final(events)@.len() == old(events)@.len(),
        clicked == (position matches Some(p) && exists|i: int|
            0 <= i < old(events)@.len() && debug_click(p, clipping_rect, window_id, #[trigger] old(events)@[i])),
        forall|i: int|
            0 <= i < old(events)@.len() ==> {
                &&& (#[trigger] final(events)@[i]).ev() == old(events)@[i].ev()
                &&& final(events)@[i].status() == if position matches Some(p) && debug_click(
                    p,
                    clipping_rect,
                    window_id,
                    old(events)@[i],
                ) {
                    ConsumedStatus::ConsumedByWidget
                } else {
                    old(events)@[i].status()
                }
            },
{
    let pos = match position {
        Some(v) => v,
        None => return false,  // only functionality is being clicked
    };
    let ghost initial = events@;
    let len = events.len();
    let mut clicked = false;
    let mut i: usize = 0;
    while i < len
        invariant
            position == Some(pos),
            len == events@.len(),
            initial.len() == len,
            i <= len,
            clicked == exists|k: int|
                0 <= k < i && debug_click(pos, clipping_rect, window_id, #[trigger] initial[k]),
            forall|k: int| i <= k < len ==> #[trigger] events@[k] == initial[k],
            forall|k: int|
                0 <= k < i ==> {
                    &&& (#[trigger] events@[k]).ev() == initial[k].ev()
                    &&& events@[k].status() == if debug_click(pos, clipping_rect, window_id, initial[k]) {
                        ConsumedStatus::ConsumedByWidget
                    } else {
                        initial[k].status()
                    }
                },
        decreases len - i,
    {
        if events[i].available() {
            let hit = match events[i].event() {
                Event::MouseButtonUp { mouse_btn: MouseButton::Left, x, y, window_id: w, .. } => {
                    // not for me, or outside of the position or clipping rect
                    *w == window_id && point_in_position_and_clipping_rect(*x, *y, pos, clipping_rect)
                },
                _ => false,
            };
            if hit {
                events[i].set_consumed();
                clicked = true;
            }
        }
        i = i + 1;
    }
    clicked
}

/// The outline that the debug widget draws: around the edge of `position`,
/// then a diagonal from the top left to the bottom right.
pub fn debug_rect_outline_points(position: Rect) -> (r: [Point; 6])
    requires
        position.wf(),
    ensures
        ({
            let right = position.x + position.w - 1;
            let bottom = position.y + position.h - 1;
            r@ == seq![
                point_at(position.x as int, position.y as int),
                point_at(right, position.y as int),
                point_at(right, bottom),
                point_at(position.x as int, bottom),
                point_at(position.x as int, position.y as int),
                point_at(right, bottom),
            ]
        }),
{
    let right = position.x + position.w as i32 - 1;
    let bottom = position.y + position.h as i32 - 1;
    [
        Point::new(position.x, position.y),
        Point::new(right, position.y),
        Point::new(right, bottom),
        Point::new(position.x, bottom),
        Point::new(position.x, position.y),
        Point::new(right, bottom),
    ]
}

} // verus!
