use vstd::prelude::*;

use crate::util::geometry::{ClippingRect, Rect};
use crate::util::length::AspectRatioPreferredDirection;
use crate::widget::{ConsumedStatus, Event, MouseButton, MouseWheelDirection, SDLEvent, WindowEvent};

verus! {

/// the drag scrolling state of a scroller
#[derive(Debug, Clone, Copy, PartialEq, Eq, Structural)]
pub enum DragState {
    /// not dragging
    Idle,
    /// waiting for mouse to move far enough before beginning dragging
    DragStart(i32, i32),
    /// contains drag diff
    Dragging(i32, i32),
}

/// which aspect ratio direction a scroller gives to its contained widget
#[derive(Debug, Clone, Copy, PartialEq, Eq, Structural)]
pub enum ScrollAspectRatioDirectionPolicy {
    Inherit,
    Literal(AspectRatioPreferredDirection),
}

impl Default for ScrollAspectRatioDirectionPolicy {
    fn default() -> (r: Self)
        ensures
            r == ScrollAspectRatioDirectionPolicy::Inherit,
    {
        ScrollAspectRatioDirectionPolicy::Inherit
    }
}

/// the aspect ratio direction that the contained widget is placed with
pub fn scroll_aspect_ratio_direction(
    policy: ScrollAspectRatioDirectionPolicy,
    inherited: AspectRatioPreferredDirection,
) -> (r: AspectRatioPreferredDirection)
    ensures
        r == match policy {
            ScrollAspectRatioDirectionPolicy::Inherit => inherited,
            ScrollAspectRatioDirectionPolicy::Literal(dir) => dir,
        },
{
    match policy {
        ScrollAspectRatioDirectionPolicy::Inherit => inherited,
        ScrollAspectRatioDirectionPolicy::Literal(dir) => dir,
    }
}

/// The behavior of a scroller: what it may scroll and how.
#[derive(Debug, Clone, Copy)]
pub struct ScrollerSettings {
    pub scroll_x_enabled: bool,
    pub scroll_y_enabled: bool,
    /// how many pixels to move per unit of received mouse wheel
    pub mouse_wheel_sensitivity: i32,
    /// manhattan distance that the mouse must travel before it's considered a
    /// click and drag scroll
    pub drag_deadzone: u32,
    /// true restricts the scrolling to keep the contained in frame
    pub restrict_scroll: bool,
}

/// Where a scroller is, for one frame.
#[derive(Debug, Clone, Copy)]
pub struct ScrollerFrame {
    /// the window being updated
    pub window_id: u32,
    /// the scroller's position on the pixel grid; nothing if it has no area
    pub position: Option<Rect>,
    /// the clipping rect for the contained widget
    pub clip_rect_for_contained: ClippingRect,
    /// the contained widget is taller than the scroller, which flips the
    /// direction of the mouse wheel
    pub content_taller: bool,
}

/// The scroll state of a scroller.
pub struct ScrollModel {
    pub drag: DragState,
    pub scroll_x: i32,
    pub scroll_y: i32,
}

/// `v` fits in an `i32`
pub open spec fn fits_i32(v: int) -> bool {
    i32::MIN <= v <= i32::MAX
}

/// the amount `multiplier * v * sensitivity` that a wheel movement `v` scrolls,
/// or nothing if it overflows on the way
pub open spec fn wheel_amount(multiplier: int, v: i32, sensitivity: i32) -> Option<int> {
    if !fits_i32(multiplier * v) || !fits_i32(multiplier * v * sensitivity) {
        None
    } else {
        Some(multiplier * v * sensitivity)
    }
}

/// the point is over the scroller and not clipped away
pub open spec fn over_scroller(frame: ScrollerFrame, x: i32, y: i32) -> bool {
    &&& frame.position matches Some(p)
    &&& p.contains_spec(x, y)
    &&& frame.clip_rect_for_contained.admits(x, y)
}

/// The effect of one event on a scroller: the new scroll state, whether the
/// scroller consumes the event, and whether the scroll restrictions are to be
/// applied afterwards. Nothing where the arithmetic would overflow.
pub open spec fn scroller_step(
    settings: ScrollerSettings,
    frame: ScrollerFrame,
    st: ScrollModel,
    e: Event,
) -> Option<(ScrollModel, bool, bool)> {
    match e {
        Event::MouseWheel { x, y, mouse_x, mouse_y, direction, window_id, .. } => {
            if frame.window_id != window_id || !over_scroller(frame, mouse_x, mouse_y) {
                Some((st, false, false))
            } else {
                let m0: int = if direction is Flipped { -1 } else { 1 };
                let multiplier: int = if frame.content_taller { -m0 } else { m0 };
                let sx = if settings.scroll_x_enabled {
                    match wheel_amount(multiplier, x, settings.mouse_wheel_sensitivity) {
                        Some(a) => if fits_i32(st.scroll_x - a) { Some(st.scroll_x - a) } else { None },
                        None => None,
                    }
                } else {
                    Some(st.scroll_x as int)
                };
                let sy = if settings.scroll_y_enabled {
                    match wheel_amount(multiplier, y, settings.mouse_wheel_sensitivity) {
                        Some(a) => if fits_i32(st.scroll_y - a) { Some(st.scroll_y - a) } else { None },
                        None => None,
                    }
                } else {
                    Some(st.scroll_y as int)
                };
                match (sx, sy) {
                    (Some(sx), Some(sy)) => Some(
                        (
                            ScrollModel { scroll_x: sx as i32, scroll_y: sy as i32, ..st },
                            true,
                            settings.restrict_scroll,
                        ),
                    ),
                    _ => None,
                }
            }
        },
        Event::Window { win_event, .. } => {
            if win_event is Other {
                Some((st, false, false))
            } else {
                // stop dragging, but don't consume the event
                Some((ScrollModel { drag: DragState::Idle, ..st }, false, settings.restrict_scroll))
            }
        },
        Event::MouseButtonUp { mouse_btn: MouseButton::Left, .. } => {
            if st.drag is Idle {
                Some((st, false, false))
            } else {
                // reset, regardless mouse position
                Some((ScrollModel { drag: DragState::Idle, ..st }, true, settings.restrict_scroll))
            }
        },
        Event::MouseButtonDown { mouse_btn: MouseButton::Left, x, y, window_id, .. } => {
            if frame.window_id != window_id || !over_scroller(frame, x, y) {
                Some((st, false, false))
            } else if st.drag is Idle {
                Some((ScrollModel { drag: DragState::DragStart(x, y), ..st }, true, false))
            } else {
                Some((st, true, false))
            }
        },
        Event::MouseMotion { x, y, left_pressed, window_id, .. } => {
            let st1 = if !left_pressed { ScrollModel { drag: DragState::Idle, ..st } } else { st };
            if st1.drag is Idle || frame.window_id != window_id {
                Some((st1, false, false))
            } else {
                let started = match st1.drag {
                    DragState::DragStart(start_x, start_y) => {
                        if !fits_i32(start_x - x) || !fits_i32(start_y - y) {
                            None
                        } else {
                            let far_x = (if start_x - x < 0 { x - start_x } else { start_x - x })
                                > settings.drag_deadzone;
                            let far_y = (if start_y - y < 0 { y - start_y } else { start_y - y })
                                > settings.drag_deadzone;
                            if (far_x && settings.scroll_x_enabled) || (far_y
                                && settings.scroll_y_enabled) {
                                if !fits_i32(x - st1.scroll_x) || !fits_i32(y - st1.scroll_y) {
                                    None
                                } else {
                                    Some(
                                        ScrollModel {
                                            drag: DragState::Dragging(
                                                (x - st1.scroll_x) as i32,
                                                (y - st1.scroll_y) as i32,
                                            ),
                                            ..st1
                                        },
                                    )
                                }
                            } else {
                                Some(st1)
                            }
                        }
                    },
                    _ => Some(st1),
                };
                match started {
                    Some(st2) => match st2.drag {
                        DragState::Dragging(drag_x, drag_y) => {
                            if (settings.scroll_x_enabled && !fits_i32(x - drag_x)) || (
                            settings.scroll_y_enabled && !fits_i32(y - drag_y)) {
                                None
                            } else {
                                Some(
                                    (
                                        ScrollModel {
                                            scroll_x: if settings.scroll_x_enabled {
                                                (x - drag_x) as i32
                                            } else {
                                                st2.scroll_x
                                            },
                                            scroll_y: if settings.scroll_y_enabled {
                                                (y - drag_y) as i32
                                            } else {
                                                st2.scroll_y
                                            },
                                            ..st2
                                        },
                                        true,
                                        false,
                                    ),
                                )
                            }
                        },
                        _ => Some((st2, true, false)),
                    },
                    None => None,
                }
            }
        },
        _ => Some((st, false, false)),
    }
}



/// Law: a scroller never scrolls in a direction that is not enabled: the
/// scroll position along a disabled axis is left as it is by every event
/// (only the scroll restrictions, applied afterwards, may move it).
pub proof fn lemma_disabled_axis_stays(
    settings: ScrollerSettings,
    frame: ScrollerFrame,
    st: ScrollModel,
    e: Event,
)
    requires
        scroller_step(settings, frame, st, e) is Some,
    ensures
        ({
            let (next, _consume, _restrict) = scroller_step(settings, frame, st, e)->0;
            &&& !settings.scroll_x_enabled ==> next.scroll_x == st.scroll_x
            &&& !settings.scroll_y_enabled ==> next.scroll_y == st.scroll_y
        }),
{
}

/// Law: the mouse wheel scrolls only when the mouse is over the visible part
/// of the scroller in its window; elsewhere it changes nothing and is left
/// for others.
pub proof fn lemma_wheel_only_over_scroller(
    settings: ScrollerSettings,
    frame: ScrollerFrame,
    st: ScrollModel,
    timestamp: u32,
    window_id: u32,
    x: i32,
    y: i32,
    direction: MouseWheelDirection,
    mouse_x: i32,
    mouse_y: i32,
)
    requires
        frame.window_id != window_id || !over_scroller(frame, mouse_x, mouse_y),
    ensures
        scroller_step(
            settings,
            frame,
            st,
            Event::MouseWheel { timestamp, window_id, x, y, direction, mouse_x, mouse_y },
        ) == Some((st, false, false)),
{
}

/// Law: over the visible part of the scroller, in its window, the mouse wheel
/// scrolls each enabled axis by the wheel amount times the sensitivity: the
/// scroll position goes down by it for a normal wheel over content that is
/// not taller than the scroller (or a flipped wheel over taller content), and
/// up by it otherwise; the event is consumed and any drag is kept.
pub proof fn lemma_wheel_scrolls_by_amount(
    settings: ScrollerSettings,
    frame: ScrollerFrame,
    st: ScrollModel,
    timestamp: u32,
    x: i32,
    y: i32,
    direction: MouseWheelDirection,
    mouse_x: i32,
    mouse_y: i32,
)
    requires
        over_scroller(frame, mouse_x, mouse_y),
        scroller_step(
            settings,
            frame,
            st,
            Event::MouseWheel { timestamp, window_id: frame.window_id, x, y, direction, mouse_x, mouse_y },
        ) is Some,
    ensures
        ({
            let (next, consume, restrict) = scroller_step(
                settings,
                frame,
                st,
                Event::MouseWheel { timestamp, window_id: frame.window_id, x, y, direction, mouse_x, mouse_y },
            )->0;
            let down = (direction is Flipped) == frame.content_taller;
            &&& consume
            &&& restrict == settings.restrict_scroll
            &&& next.drag == st.drag
            &&& next.scroll_x == if !settings.scroll_x_enabled {
                st.scroll_x as int
            } else if down {
                st.scroll_x - x * settings.mouse_wheel_sensitivity
            } else {
                st.scroll_x + x * settings.mouse_wheel_sensitivity
            }
            &&& next.scroll_y == if !settings.scroll_y_enabled {
                st.scroll_y as int
            } else if down {
                st.scroll_y - y * settings.mouse_wheel_sensitivity
            } else {
                st.scroll_y + y * settings.mouse_wheel_sensitivity
            }
        }),
{
    let s = settings.mouse_wheel_sensitivity as int;
    assert((-1) * x * s == -(x * s)) by (nonlinear_arith);
    assert((-1) * y * s == -(y * s)) by (nonlinear_arith);
    assert(1 * x * s == x * s) by (nonlinear_arith);
    assert(1 * y * s == y * s) by (nonlinear_arith);
}

/// Law: releasing the left mouse button ends any drag, and is consumed only
/// when a drag (or a pending drag) was going on.
pub proof fn lemma_release_ends_drag(
    settings: ScrollerSettings,
    frame: ScrollerFrame,
    st: ScrollModel,
    timestamp: u32,
    window_id: u32,
    x: i32,
    y: i32,
)
    ensures
        ({
            let r = scroller_step(
                settings,
                frame,
                st,
                Event::MouseButtonUp { timestamp, window_id, mouse_btn: MouseButton::Left, x, y },
            );
            let (next, consume, _restrict) = r->0;
            &&& r is Some
            &&& next.drag == DragState::Idle
            &&& next.scroll_x == st.scroll_x
            &&& next.scroll_y == st.scroll_y
            &&& consume == !(st.drag is Idle)
        }),
{
}

/// Law: a drag only starts once the mouse has moved more than the deadzone
/// away from where the left button went down. While it stays within the
/// deadzone on both axes, the pending drag is kept, the scroll position does
/// not move, and the motion is consumed.
pub proof fn lemma_drag_deadzone(
    settings: ScrollerSettings,
    frame: ScrollerFrame,
    st: ScrollModel,
    timestamp: u32,
    start_x: i32,
    start_y: i32,
    x: i32,
    y: i32,
)
    requires
        st.drag == DragState::DragStart(start_x, start_y),
        fits_i32(start_x - x),
        fits_i32(start_y - y),
        -(settings.drag_deadzone as int) <= start_x - x <= settings.drag_deadzone,
        -(settings.drag_deadzone as int) <= start_y - y <= settings.drag_deadzone,
    ensures
        scroller_step(
            settings,
            frame,
            st,
            Event::MouseMotion { timestamp, window_id: frame.window_id, left_pressed: true, x, y },
        ) == Some((st, true, false)),
{
}

/// Law: when a pending drag becomes a drag, the content does not jump: the
/// motion that starts the drag leaves the scroll position where it was, and
/// is consumed. A drag starts once the mouse has moved beyond the deadzone
/// along an axis that may scroll.
pub proof fn lemma_drag_start_keeps_scroll(
    settings: ScrollerSettings,
    frame: ScrollerFrame,
    st: ScrollModel,
    timestamp: u32,
    start_x: i32,
    start_y: i32,
    x: i32,
    y: i32,
)
    requires
        st.drag == DragState::DragStart(start_x, start_y),
        scroller_step(
            settings,
            frame,
            st,
            Event::MouseMotion { timestamp, window_id: frame.window_id, left_pressed: true, x, y },
        ) is Some,
    ensures
        ({
            let (next, consume, _restrict) = scroller_step(
                settings,
                frame,
                st,
                Event::MouseMotion { timestamp, window_id: frame.window_id, left_pressed: true, x, y },
            )->0;
            &&& next.scroll_x == st.scroll_x
            &&& next.scroll_y == st.scroll_y
            &&& consume
            &&& (next.drag is Dragging <==> ((settings.scroll_x_enabled && (start_x - x > settings.drag_deadzone
                || x - start_x > settings.drag_deadzone)) || (settings.scroll_y_enabled && (start_y - y
                > settings.drag_deadzone || y - start_y > settings.drag_deadzone))))
        }),
{
}

/// Law: while dragging, the content follows the mouse: of two motions with the
/// left button held, the first of which leaves the scroller dragging (whether
/// it started the drag or continued it), the second moves the scroll position
/// by exactly the mouse's displacement between them along each axis that may
/// scroll, and not at all along the others; the drag goes on.
pub proof fn lemma_drag_follows_mouse(
    settings: ScrollerSettings,
    frame: ScrollerFrame,
    st: ScrollModel,
    t1: u32,
    x1: i32,
    y1: i32,
    t2: u32,
    x2: i32,
    y2: i32,
)
    requires
        scroller_step(
            settings,
            frame,
            st,
            Event::MouseMotion { timestamp: t1, window_id: frame.window_id, left_pressed: true, x: x1, y: y1 },
        ) is Some,
        (scroller_step(
            settings,
            frame,
            st,
            Event::MouseMotion { timestamp: t1, window_id: frame.window_id, left_pressed: true, x: x1, y: y1 },
        )->0).0.drag is Dragging,
        scroller_step(
            settings,
            frame,
            (scroller_step(
                settings,
                frame,
                st,
                Event::MouseMotion { timestamp: t1, window_id: frame.window_id, left_pressed: true, x: x1, y: y1 },
            )->0).0,
            Event::MouseMotion { timestamp: t2, window_id: frame.window_id, left_pressed: true, x: x2, y: y2 },
        ) is Some,
    ensures
        ({
            let (n1, _c1, _r1) = scroller_step(
                settings,
                frame,
                st,
                Event::MouseMotion { timestamp: t1, window_id: frame.window_id, left_pressed: true, x: x1, y: y1 },
            )->0;
            let (n2, consume, _restrict) = scroller_step(
                settings,
                frame,
                n1,
                Event::MouseMotion { timestamp: t2, window_id: frame.window_id, left_pressed: true, x: x2, y: y2 },
            )->0;
            &&& n2.drag == n1.drag
            &&& consume
            &&& n2.scroll_x == if settings.scroll_x_enabled { n1.scroll_x + (x2 - x1) } else { n1.scroll_x as int }
            &&& n2.scroll_y == if settings.scroll_y_enabled { n1.scroll_y + (y2 - y1) } else { n1.scroll_y as int }
        }),
{
}

/// What a scroller sees of an event, copied out of it.
enum ScrollEventKind {
    Wheel { x: i32, y: i32, mouse_x: i32, mouse_y: i32, flipped: bool, window_id: u32 },
    WindowLost,
    LeftUp,
    LeftDown { x: i32, y: i32, window_id: u32 },
    Motion { x: i32, y: i32, left_pressed: bool, window_id: u32 },
    Other,
}

fn scroll_event_kind(e: &Event) -> (r: ScrollEventKind)
    ensures
        match *e {
            Event::MouseWheel { x, y, mouse_x, mouse_y, direction, window_id, .. } => r == (
            ScrollEventKind::Wheel {
                x,
                y,
                mouse_x,
                mouse_y,
                flipped: direction is Flipped,
                window_id,
            }),
            Event::Window { win_event, .. } => if win_event is Other {
                r == ScrollEventKind::Other
            } else {
                r == ScrollEventKind::WindowLost
            },
            Event::MouseButtonUp { mouse_btn: MouseButton::Left, .. } => r == ScrollEventKind::LeftUp,
            Event::MouseButtonDown { mouse_btn: MouseButton::Left, x, y, window_id, .. } => r == (
            ScrollEventKind::LeftDown { x, y, window_id }),
            Event::MouseMotion { x, y, left_pressed, window_id, .. } => r == (
            ScrollEventKind::Motion { x, y, left_pressed, window_id }),
            _ => r == ScrollEventKind::Other,
        },
{
    match e {
        Event::MouseWheel { x, y, mouse_x, mouse_y, direction, window_id, .. } => {
            ScrollEventKind::Wheel {
                x: *x,
                y: *y,
                mouse_x: *mouse_x,
                mouse_y: *mouse_y,
                flipped: match direction {
                    MouseWheelDirection::Flipped => true,
                    _ => false,
                },
                window_id: *window_id,
            }
        },
        Event::Window { win_event, .. } => match win_event {
            WindowEvent::Other => ScrollEventKind::Other,
            _ => ScrollEventKind::WindowLost,
        },
        Event::MouseButtonUp { mouse_btn: MouseButton::Left, .. } => ScrollEventKind::LeftUp,
        Event::MouseButtonDown { mouse_btn: MouseButton::Left, x, y, window_id, .. } => {
            ScrollEventKind::LeftDown { x: *x, y: *y, window_id: *window_id }
        },
        Event::MouseMotion { x, y, left_pressed, window_id, .. } => ScrollEventKind::Motion {
            x: *x,
            y: *y,
            left_pressed: *left_pressed,
            window_id: *window_id,
        },
        _ => ScrollEventKind::Other,
    }
}

fn is_over_scroller(frame: &ScrollerFrame, x: i32, y: i32) -> (r: bool)
    ensures
        r == over_scroller(*frame, x, y),
{
    match frame.position {
        Some(p) => if p.contains_point(x, y) {
            match frame.clip_rect_for_contained {
                ClippingRect::Clip(rect) => rect.contains_point(x, y),
                ClippingRect::Zero => false,
                ClippingRect::Unclipped => true,
            }
        } else {
            false
        },
        None => false,
    }
}

/// `scroll - multiplier * v * sensitivity`, evaluated left to right
fn wheel_scroll(scroll: i32, multiplier: i32, v: i32, sensitivity: i32) -> (r: i32)
    requires
        multiplier == 1 || multiplier == -1,
        wheel_amount(multiplier as int, v, sensitivity) matches Some(a) && fits_i32(scroll - a),
    ensures
        r == scroll - multiplier * v * sensitivity,
{
    let a = multiplier * v;
    let b = a * sensitivity;
    scroll - b
}

/// The reaction of a scroller to one event that no layout has consumed yet:
/// mouse wheel scrolling, and dragging with the left mouse button. Returns
/// whether the scroll restrictions are to be applied now.
pub fn scroller_handle_event(
    settings: &ScrollerSettings,
    frame: &ScrollerFrame,
    drag_state: &mut DragState,
    scroll_x: &mut i32,
    scroll_y: &mut i32,
    event: &mut SDLEvent,
) -> (restrict: bool)
    requires
        !(old(event).status() is ConsumedByLayout),
        scroller_step(
            *settings,
            *frame,
            ScrollModel { drag: *old(drag_state), scroll_x: *old(scroll_x), scroll_y: *old(scroll_y) },
            old(event).ev(),
        ) is Some,
    ensures
        ({
            let (st, consume, restrict_now) = scroller_step(
                *settings,
                *frame,
                ScrollModel {
                    drag: *old(drag_state),
                    scroll_x: *old(scroll_x),
                    scroll_y: *old(scroll_y),
                },
                old(event).ev(),
            )->0;
            &&& *final(drag_state) == st.drag
            &&& *final(scroll_x) == st.scroll_x
            &&& *final(scroll_y) == st.scroll_y
            &&& restrict == restrict_now
            &&& final(event).ev() == old(event).ev()
            &&& final(event).status() == if consume {
                ConsumedStatus::ConsumedByLayout
            } else {
                old(event).status()
            }
        }),
{
    let kind = scroll_event_kind(event.event());
    match kind {
        // mouse wheel logic
        ScrollEventKind::Wheel { x, y, mouse_x, mouse_y, flipped, window_id } => {
            if frame.window_id != window_id {
                return false;  // not for me!
            }
            let mut multiplier: i32 = if flipped { -1 } else { 1 };
            if frame.content_taller {
                multiplier = -multiplier;
            }
            // only look at wheel when mouse over scroll area
            if !is_over_scroller(frame, mouse_x, mouse_y) {
                return false;
            }
            event.set_consumed_by_layout();
            if settings.scroll_x_enabled {
                *scroll_x = wheel_scroll(*scroll_x, multiplier, x, settings.mouse_wheel_sensitivity);
            }
            if settings.scroll_y_enabled {
                *scroll_y = wheel_scroll(*scroll_y, multiplier, y, settings.mouse_wheel_sensitivity);
            }
            settings.restrict_scroll
        },
        ScrollEventKind::WindowLost => {
            // same functionality as below for mouse button up, but don't
            // consume the event
            *drag_state = DragState::Idle;
            settings.restrict_scroll
        },
        ScrollEventKind::LeftUp => {
            match *drag_state {
                DragState::Idle => false,
                _ => {
                    // reset, regardless mouse position
                    *drag_state = DragState::Idle;
                    event.set_consumed_by_layout();
                    settings.restrict_scroll
                },
            }
        },
        // on mouse down, log the position and wait for drag start
        ScrollEventKind::LeftDown { x, y, window_id } => {
            if frame.window_id != window_id {
                return false;  // not for me!
            }
            if !is_over_scroller(frame, x, y) {
                return false;
            }
            event.set_consumed_by_layout();
            if let DragState::Idle = *drag_state {
                *drag_state = DragState::DragStart(x, y);
            }
            false
        },
        // on mouse motion apply mouse drag.
        ScrollEventKind::Motion { x, y, left_pressed, window_id } => {
            if !left_pressed {
                // if mouse motion is detected and the left mouse button isn't
                // pressed down, regardless of position or window, then clear
                // the drag state
                //
                // intentional fallthrough.
                *drag_state = DragState::Idle;
            }
            if let DragState::Idle = *drag_state {
                return false;
            }
            if frame.window_id != window_id {
                // ignore drag through windows
                return false;
            }
            event.set_consumed_by_layout();
            if let DragState::DragStart(start_x, start_y) = *drag_state {
                let dx = start_x - x;
                let dy = start_y - y;
                let dragged_far_enough_x = (if dx < 0 { (x as i64 - start_x as i64) } else { dx as i64 })
                    > settings.drag_deadzone as i64;
                let dragged_far_enough_y = (if dy < 0 { (y as i64 - start_y as i64) } else { dy as i64 })
                    > settings.drag_deadzone as i64;
                let trigger_x = dragged_far_enough_x && settings.scroll_x_enabled;
                let trigger_y = dragged_far_enough_y && settings.scroll_y_enabled;
                if trigger_x || trigger_y {
                    *drag_state = DragState::Dragging(x - *scroll_x, y - *scroll_y);
                    // intentional fallthrough
                }
            }
            if let DragState::Dragging(drag_x, drag_y) = *drag_state {
                if settings.scroll_x_enabled {
                    *scroll_x = x - drag_x;
                }
                if settings.scroll_y_enabled {
                    *scroll_y = y - drag_y;
                }
            }
            false
        },
        ScrollEventKind::Other => false,
    }
}

/// `v` fits in an `i32`
fn fits_i64(v: i64) -> (r: bool)
    ensures
        r == fits_i32(v as int),
{
    i32::MIN as i64 <= v && v <= i32::MAX as i64
}

/// the wheel arithmetic `scroll - multiplier * v * sensitivity` stays in range
fn wheel_defined(scroll: i32, multiplier: i32, v: i32, sensitivity: i32) -> (r: bool)
    requires
        multiplier == 1 || multiplier == -1,
    ensures
        r == (wheel_amount(multiplier as int, v, sensitivity) matches Some(a) && fits_i32(scroll - a)),
{
    let mv: i64 = if multiplier == 1 { v as i64 } else { -(v as i64) };
    assert(mv == multiplier * v);
    if !fits_i64(mv) {
        return false;
    }
    let s: i64 = sensitivity as i64;
    assert(-0x4000_0000_0000_0000 <= mv * s <= 0x4000_0000_0000_0000) by (nonlinear_arith)
        requires
            i32::MIN <= mv <= i32::MAX,
            i32::MIN <= s <= i32::MAX,
    ;
    let a: i64 = mv * s;
    if !fits_i64(a) {
        return false;
    }
    fits_i64(scroll as i64 - a)
}

/// The scroller's reaction to `e` is defined: it is not only where its
/// scroll arithmetic would leave the range of `i32`.
pub fn scroller_step_defined(
    settings: &ScrollerSettings,
    frame: &ScrollerFrame,
    drag_state: DragState,
    scroll_x: i32,
    scroll_y: i32,
    e: &Event,
) -> (r: bool)
    ensures
        r == scroller_step(
            *settings,
            *frame,
            ScrollModel { drag: drag_state, scroll_x, scroll_y },
            *e,
        ) is Some,
{
    match scroll_event_kind(e) {
        ScrollEventKind::Wheel { x, y, mouse_x, mouse_y, flipped, window_id } => {
            if frame.window_id != window_id || !is_over_scroller(frame, mouse_x, mouse_y) {
                return true;
            }
            let mut multiplier: i32 = if flipped { -1 } else { 1 };
            if frame.content_taller {
                multiplier = -multiplier;
            }
            let x_ok = !settings.scroll_x_enabled || wheel_defined(
                scroll_x,
                multiplier,
                x,
                settings.mouse_wheel_sensitivity,
            );
            let y_ok = !settings.scroll_y_enabled || wheel_defined(
                scroll_y,
                multiplier,
                y,
                settings.mouse_wheel_sensitivity,
            );
            x_ok && y_ok
        },
        ScrollEventKind::Motion { x, y, left_pressed, window_id } => {
            let drag = if !left_pressed {
                DragState::Idle
            } else {
                drag_state
            };
            if drag == DragState::Idle || frame.window_id != window_id {
                return true;
            }
            let dragging: Option<(i32, i32)> = match drag {
                DragState::DragStart(start_x, start_y) => {
                    let dx: i64 = start_x as i64 - x as i64;
                    let dy: i64 = start_y as i64 - y as i64;
                    if !fits_i64(dx) || !fits_i64(dy) {
                        return false;
                    }
                    let far_x = (if dx < 0 { -dx } else { dx }) > settings.drag_deadzone as i64;
                    let far_y = (if dy < 0 { -dy } else { dy }) > settings.drag_deadzone as i64;
                    if (far_x && settings.scroll_x_enabled) || (far_y && settings.scroll_y_enabled) {
                        let gx: i64 = x as i64 - scroll_x as i64;
                        let gy: i64 = y as i64 - scroll_y as i64;
                        if !fits_i64(gx) || !fits_i64(gy) {
                            return false;
                        }
                        Some((gx as i32, gy as i32))
                    } else {
                        None
                    }
                },
                DragState::Dragging(drag_x, drag_y) => Some((drag_x, drag_y)),
                DragState::Idle => None,
            };
            match dragging {
                Some((drag_x, drag_y)) => {
                    !(settings.scroll_x_enabled && !fits_i64(x as i64 - drag_x as i64)) && !(
                    settings.scroll_y_enabled && !fits_i64(y as i64 - drag_y as i64))
                },
                None => true,
            }
        },
        _ => true,
    }
}

/// while dragging, the scroller takes every mouse button and motion event
/// that is still available, before its contained widget sees them
pub open spec fn drag_consumes(drag: DragState, ev: SDLEvent) -> bool {
    &&& drag is Dragging
    &&& ev.is_available()
    &&& (ev.ev() is MouseButtonDown || ev.ev() is MouseMotion || ev.ev() is MouseButtonUp)
}

/// Law: while the scroller is dragging, every available mouse button press,
/// mouse motion and mouse button release is taken before the contained widget
/// sees it, so a drag never clicks what is under the mouse; no other event is
/// taken, and nothing is taken when not dragging.
pub proof fn lemma_dragging_takes_mouse_events(drag: DragState, ev: SDLEvent)
    ensures
        drag is Dragging && ev.is_available() && (ev.ev() is MouseButtonDown || ev.ev() is MouseMotion
            || ev.ev() is MouseButtonUp) ==> drag_consumes(drag, ev),
        drag_consumes(drag, ev) ==> drag is Dragging && ev.is_available() && (ev.ev() is MouseButtonDown
            || ev.ev() is MouseMotion || ev.ev() is MouseButtonUp),
{
}

/// consume related events if currently dragging. done before passing events
/// to the contained widget
pub fn scroller_consume_drag_events(drag_state: DragState, events: &mut [SDLEvent])
    ensures
        final(events)@.len() == old(events)@.len(),
        forall|i: int|
            0 <= i < old(events)@.len() ==> {
                &&& (#[trigger] final(events)@[i]).ev() == old(events)@[i].ev()
                &&& final(events)@[i].status() == if drag_consumes(drag_state, old(events)@[i]) {
                    ConsumedStatus::ConsumedByWidget
                } else {
                    old(events)@[i].status()
                }
            },
{
    if let DragState::Dragging(_, _) = drag_state {
        let ghost initial = events@;
        let len = events.len();
        let mut i: usize = 0;
        while i < len
            invariant
                drag_state is Dragging,
                len == events@.len(),
                initial.len() == len,
                i <= len,
                forall|k: int| i <= k < len ==> #[trigger] events@[k] == initial[k],
                forall|k: int|
                    0 <= k < i ==> {
                        &&& (#[trigger] events@[k]).ev() == initial[k].ev()
                        &&& events@[k].status() == if drag_consumes(drag_state, initial[k]) {
                            ConsumedStatus::ConsumedByWidget
                        } else {
                            initial[k].status()
                        }
                    },
            decreases len - i,
        {
            if events[i].available() {
                let mouse = match events[i].event() {
                    Event::MouseButtonDown { .. } | Event::MouseMotion { .. }
                    | Event::MouseButtonUp { .. } => true,
                    _ => false,
                };
                if mouse {
                    events[i].set_consumed();
                }
            }
            i = i + 1;
        }
    }
}

/// The system cursors that a scroller shows while dragging.
#[derive(Debug, Clone, Copy, PartialEq, Eq, Structural)]
pub enum ScrollCursor {
    SizeAll,
    SizeWE,
    SizeNS,
}

/// What to do with the cached cursor.
#[derive(Debug, Clone, Copy, PartialEq, Eq, Structural)]
pub enum CursorCacheAction {
    /// drop the cached cursor
    Clear,
    /// the cached cursor is right; keep it
    Keep,
    /// load and set this cursor, and cache it for these scroll directions
    Request(ScrollCursor),
}

/// the cursor to show while dragging with the given scroll directions
pub open spec fn cursor_for(scroll_x_enabled: bool, scroll_y_enabled: bool) -> ScrollCursor {
    if scroll_x_enabled && scroll_y_enabled {
        ScrollCursor::SizeAll
    } else if scroll_x_enabled {
        ScrollCursor::SizeWE
    } else {
        ScrollCursor::SizeNS
    }
}

/// Law: the drag cursor shows the directions the scroller may move in: arrows
/// in all directions when both axes scroll, left-right when only x does, and
/// up-down when only y does.
pub proof fn lemma_cursor_shows_axes(scroll_x_enabled: bool, scroll_y_enabled: bool)
    ensures
        scroll_x_enabled && scroll_y_enabled ==> cursor_for(scroll_x_enabled, scroll_y_enabled)
            == ScrollCursor::SizeAll,
        scroll_x_enabled && !scroll_y_enabled ==> cursor_for(scroll_x_enabled, scroll_y_enabled)
            == ScrollCursor::SizeWE,
        !scroll_x_enabled && scroll_y_enabled ==> cursor_for(scroll_x_enabled, scroll_y_enabled)
            == ScrollCursor::SizeNS,
{
}

/// The cursor cache's decision while dragging, from the directions the cached
/// cursor was loaded for, if one is cached.
pub open spec fn cursor_cache_spec(cached: Option<(bool, bool)>, scroll_x_enabled: bool, scroll_y_enabled: bool) -> CursorCacheAction {
    if !scroll_x_enabled && !scroll_y_enabled {
        CursorCacheAction::Clear
    } else if cached == Some((scroll_x_enabled, scroll_y_enabled)) {
        CursorCacheAction::Keep
    } else {
        CursorCacheAction::Request(cursor_for(scroll_x_enabled, scroll_y_enabled))
    }
}

/// Law: the cursor cache is kept only while it holds the cursor for the
/// current scroll directions, is dropped when the scroller cannot scroll at
/// all, and otherwise the cursor for the current directions is requested.
pub proof fn lemma_cursor_cache_follows_directions(
    cached: Option<(bool, bool)>,
    scroll_x_enabled: bool,
    scroll_y_enabled: bool,
)
    ensures
        ({
            let r = cursor_cache_spec(cached, scroll_x_enabled, scroll_y_enabled);
            &&& (r == CursorCacheAction::Clear <==> (!scroll_x_enabled && !scroll_y_enabled))
            &&& (r == CursorCacheAction::Keep <==> ((scroll_x_enabled || scroll_y_enabled) && cached
                == Some((scroll_x_enabled, scroll_y_enabled))))
            &&& r matches CursorCacheAction::Request(c) ==> {
            &&& cached != Some((scroll_x_enabled, scroll_y_enabled))
            &&& (c == ScrollCursor::SizeAll <==> (scroll_x_enabled && scroll_y_enabled))
            &&& (c == ScrollCursor::SizeWE <==> (scroll_x_enabled && !scroll_y_enabled))
            &&& (c == ScrollCursor::SizeNS <==> (!scroll_x_enabled && scroll_y_enabled))
        }
        }),
{
}

/// The cursor cache's decision while dragging: `cached` is the scroll
/// directions that the cached cursor was loaded for, if one is cached.
pub fn cursor_cache_action(
    cached: Option<(bool, bool)>,
    scroll_x_enabled: bool,
    scroll_y_enabled: bool,
) -> (r: CursorCacheAction)
    ensures
        r == cursor_cache_spec(cached, scroll_x_enabled, scroll_y_enabled),
{
    if !scroll_x_enabled && !scroll_y_enabled {
        return CursorCacheAction::Clear;
    }
    let fresh = match cached {
        None => true,
        Some((x, y)) => x != scroll_x_enabled || y != scroll_y_enabled,
    };
    if fresh {
        let cursor_to_request = if scroll_x_enabled && scroll_y_enabled {
            ScrollCursor::SizeAll
        } else if scroll_x_enabled {
            ScrollCursor::SizeWE
        } else {
            ScrollCursor::SizeNS
        };
        CursorCacheAction::Request(cursor_to_request)
    } else {
        CursorCacheAction::Keep
    }
}

} // verus!
