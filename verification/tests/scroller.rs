use tiny_sdl2_gui::layout::scroller::{
    cursor_cache_action, scroll_aspect_ratio_direction, scroller_consume_drag_events,
    scroller_handle_event, scroller_step_defined, CursorCacheAction, DragState, ScrollAspectRatioDirectionPolicy,
    ScrollCursor, ScrollerFrame, ScrollerSettings,
};
use tiny_sdl2_gui::util::geometry::{ClippingRect, Rect};
use tiny_sdl2_gui::util::length::AspectRatioPreferredDirection;
use tiny_sdl2_gui::widget::{ConsumedStatus, Event, MouseButton, MouseWheelDirection, SDLEvent, WindowEvent};

fn settings() -> ScrollerSettings {
    ScrollerSettings {
        scroll_x_enabled: true,
        scroll_y_enabled: true,
        mouse_wheel_sensitivity: 7,
        drag_deadzone: 10,
        restrict_scroll: true,
    }
}

fn frame() -> ScrollerFrame {
    ScrollerFrame {
        window_id: 1,
        position: Some(Rect { x: 0, y: 0, w: 100, h: 100 }),
        clip_rect_for_contained: ClippingRect::Unclipped,
        content_taller: false,
    }
}

fn wheel(x: i32, y: i32, mouse_x: i32, direction: MouseWheelDirection) -> SDLEvent {
    SDLEvent::new(Event::MouseWheel { timestamp: 0, window_id: 1, x, y, direction, mouse_x, mouse_y: 5 })
}

#[test]
fn wheel_scrolls_over_scroller() {
    let (mut drag, mut sx, mut sy) = (DragState::Idle, 0, 0);
    let mut ev = wheel(1, 2, 5, MouseWheelDirection::Normal);
    let restrict = scroller_handle_event(&settings(), &frame(), &mut drag, &mut sx, &mut sy, &mut ev);
    assert!(restrict);
    assert_eq!((sx, sy), (-7, -14));
    assert!(matches!(ev.consumed_status(), ConsumedStatus::ConsumedByLayout));

    // flipped, and the content taller than the scroller: back to normal
    let mut f = frame();
    f.content_taller = true;
    let mut ev = wheel(0, 1, 5, MouseWheelDirection::Flipped);
    scroller_handle_event(&settings(), &f, &mut drag, &mut sx, &mut sy, &mut ev);
    assert_eq!((sx, sy), (-7, -21));

    // content taller alone flips
    let mut ev = wheel(0, 1, 5, MouseWheelDirection::Normal);
    scroller_handle_event(&settings(), &f, &mut drag, &mut sx, &mut sy, &mut ev);
    assert_eq!((sx, sy), (-7, -14));
}

#[test]
fn wheel_outside_is_ignored() {
    let (mut drag, mut sx, mut sy) = (DragState::Idle, 3, 4);
    let mut ev = wheel(1, 1, 500, MouseWheelDirection::Normal);
    let restrict = scroller_handle_event(&settings(), &frame(), &mut drag, &mut sx, &mut sy, &mut ev);
    assert!(!restrict);
    assert_eq!((sx, sy), (3, 4));
    assert!(ev.available());
}

#[test]
fn disabled_axis_is_not_scrolled() {
    let mut s = settings();
    s.scroll_x_enabled = false;
    let (mut drag, mut sx, mut sy) = (DragState::Idle, 0, 0);
    let mut ev = wheel(3, 1, 5, MouseWheelDirection::Normal);
    scroller_handle_event(&s, &frame(), &mut drag, &mut sx, &mut sy, &mut ev);
    assert_eq!((sx, sy), (0, -7));
}

#[test]
fn drag_scrolls_after_deadzone() {
    let (mut drag, mut sx, mut sy) = (DragState::Idle, 0, 0);
    let mut down = SDLEvent::new(Event::MouseButtonDown { timestamp: 0, window_id: 1, mouse_btn: MouseButton::Left, x: 50, y: 50 });
    scroller_handle_event(&settings(), &frame(), &mut drag, &mut sx, &mut sy, &mut down);
    assert_eq!(drag, DragState::DragStart(50, 50));
    assert!(down.consumed());

    // within the deadzone: no scrolling yet
    let mut m1 = SDLEvent::new(Event::MouseMotion { timestamp: 0, window_id: 1, left_pressed: true, x: 55, y: 50 });
    scroller_handle_event(&settings(), &frame(), &mut drag, &mut sx, &mut sy, &mut m1);
    assert_eq!(drag, DragState::DragStart(50, 50));
    assert_eq!((sx, sy), (0, 0));

    // past it: dragging, content follows the mouse
    let mut m2 = SDLEvent::new(Event::MouseMotion { timestamp: 0, window_id: 1, left_pressed: true, x: 70, y: 40 });
    scroller_handle_event(&settings(), &frame(), &mut drag, &mut sx, &mut sy, &mut m2);
    assert_eq!(drag, DragState::Dragging(70, 40));
    assert_eq!((sx, sy), (0, 0));
    let mut m3 = SDLEvent::new(Event::MouseMotion { timestamp: 0, window_id: 1, left_pressed: true, x: 80, y: 30 });
    scroller_handle_event(&settings(), &frame(), &mut drag, &mut sx, &mut sy, &mut m3);
    assert_eq!((sx, sy), (10, -10));

    let mut up = SDLEvent::new(Event::MouseButtonUp { timestamp: 0, window_id: 1, mouse_btn: MouseButton::Left, x: 80, y: 30 });
    let restrict = scroller_handle_event(&settings(), &frame(), &mut drag, &mut sx, &mut sy, &mut up);
    assert!(restrict);
    assert_eq!(drag, DragState::Idle);
    assert!(up.consumed());
}

#[test]
fn motion_without_button_ends_drag_and_window_loss_restricts() {
    let (mut drag, mut sx, mut sy) = (DragState::Dragging(1, 1), 0, 0);
    let mut m = SDLEvent::new(Event::MouseMotion { timestamp: 0, window_id: 1, left_pressed: false, x: 5, y: 5 });
    scroller_handle_event(&settings(), &frame(), &mut drag, &mut sx, &mut sy, &mut m);
    assert_eq!(drag, DragState::Idle);
    assert!(m.available());

    let mut drag = DragState::DragStart(1, 1);
    let mut w = SDLEvent::new(Event::Window { timestamp: 0, window_id: 1, win_event: WindowEvent::FocusLost });
    assert!(scroller_handle_event(&settings(), &frame(), &mut drag, &mut sx, &mut sy, &mut w));
    assert_eq!(drag, DragState::Idle);
    assert!(w.available());
}

#[test]
fn drag_consumes_mouse_events() {
    let mut events = vec![
        SDLEvent::new(Event::MouseMotion { timestamp: 0, window_id: 1, left_pressed: true, x: 5, y: 5 }),
        SDLEvent::new(Event::Other { timestamp: 0 }),
    ];
    scroller_consume_drag_events(DragState::Dragging(0, 0), &mut events);
    assert!(events[0].consumed());
    assert!(events[1].available());
    let mut events = vec![SDLEvent::new(Event::MouseMotion { timestamp: 0, window_id: 1, left_pressed: true, x: 5, y: 5 })];
    scroller_consume_drag_events(DragState::Idle, &mut events);
    assert!(events[0].available());
}

#[test]
fn cursor_cache() {
    assert_eq!(cursor_cache_action(None, false, false), CursorCacheAction::Clear);
    assert_eq!(cursor_cache_action(None, true, true), CursorCacheAction::Request(ScrollCursor::SizeAll));
    assert_eq!(cursor_cache_action(Some((true, true)), true, true), CursorCacheAction::Keep);
    assert_eq!(cursor_cache_action(Some((true, true)), true, false), CursorCacheAction::Request(ScrollCursor::SizeWE));
    assert_eq!(cursor_cache_action(None, false, true), CursorCacheAction::Request(ScrollCursor::SizeNS));
}

#[test]
fn aspect_ratio_direction_policy() {
    assert_eq!(
        scroll_aspect_ratio_direction(ScrollAspectRatioDirectionPolicy::Inherit, AspectRatioPreferredDirection::HeightFromWidth),
        AspectRatioPreferredDirection::HeightFromWidth
    );
    assert_eq!(
        scroll_aspect_ratio_direction(
            ScrollAspectRatioDirectionPolicy::Literal(AspectRatioPreferredDirection::WidthFromHeight),
            AspectRatioPreferredDirection::HeightFromWidth
        ),
        AspectRatioPreferredDirection::WidthFromHeight
    );
    assert_eq!(ScrollAspectRatioDirectionPolicy::default(), ScrollAspectRatioDirectionPolicy::Inherit);
    assert_eq!(AspectRatioPreferredDirection::default(), AspectRatioPreferredDirection::WidthFromHeight);
}

#[test]
fn step_defined_unless_overflow() {
    let e = wheel(1, 2, 5, MouseWheelDirection::Normal).e;
    assert!(scroller_step_defined(&settings(), &frame(), DragState::Idle, 0, 0, &e));
    // the wheel amount does not fit
    let mut s = settings();
    s.mouse_wheel_sensitivity = i32::MAX;
    assert!(!scroller_step_defined(&s, &frame(), DragState::Idle, 0, 0, &e));
    // the amount fits, the scroll position after it does not
    let e = wheel(0, 1, 5, MouseWheelDirection::Normal).e;
    assert!(!scroller_step_defined(&settings(), &frame(), DragState::Idle, 0, i32::MIN, &e));
    assert!(scroller_step_defined(&settings(), &frame(), DragState::Idle, 0, i32::MIN + 7, &e));
    // a wheel outside the scroller is always defined
    let e = wheel(1, 1, 500, MouseWheelDirection::Normal).e;
    assert!(scroller_step_defined(&s, &frame(), DragState::Idle, 0, 0, &e));
    // dragging far from the scroll position
    let motion = Event::MouseMotion { timestamp: 0, window_id: 1, left_pressed: true, x: i32::MAX, y: 0 };
    assert!(!scroller_step_defined(&settings(), &frame(), DragState::Dragging(-5, 0), 0, 0, &motion));
    assert!(scroller_step_defined(&settings(), &frame(), DragState::Dragging(5, 0), 0, 0, &motion));
    // once the button is released, nothing is computed
    let released = Event::MouseMotion { timestamp: 0, window_id: 1, left_pressed: false, x: i32::MAX, y: 0 };
    assert!(scroller_step_defined(&settings(), &frame(), DragState::Dragging(-5, 0), 0, 0, &released));
}
