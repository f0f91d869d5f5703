use tiny_sdl2_gui::util::focus::{point_in_position_and_clipping_rect, FocusID, FocusManager};
use tiny_sdl2_gui::util::geometry::{ClippingRect, Rect};
use tiny_sdl2_gui::widget::{ConsumedStatus, Event, Keycode, SDLEvent, LSHIFTMOD, RSHIFTMOD};

fn id(me: &str) -> FocusID {
    FocusID { previous: format!("{me}-prev"), me: me.to_string(), next: format!("{me}-next") }
}

fn key_down(keycode: Keycode, keymod: u16, repeat: bool) -> SDLEvent {
    SDLEvent::new(Event::KeyDown { timestamp: 0, window_id: 1, keycode: Some(keycode), keymod, repeat })
}

fn motion(x: i32, y: i32, window_id: u32) -> SDLEvent {
    SDLEvent::new(Event::MouseMotion { timestamp: 0, window_id, left_pressed: false, x, y })
}

const POS: Rect = Rect { x: 0, y: 0, w: 10, h: 10 };

fn behave(fid: &FocusID, fm: &mut FocusManager, ev: &mut SDLEvent) {
    FocusManager::default_widget_focus_behavior(fid, fm, Some(POS), ClippingRect::Unclipped, 1, ev);
}

#[test]
fn is_focused_compares_identity() {
    let a = id("a");
    assert!(!FocusManager(None).is_focused(&a));
    assert!(FocusManager(Some("a".to_string())).is_focused(&a));
    assert!(!FocusManager(Some("b".to_string())).is_focused(&a));
    assert!(!FocusManager::default().is_focused(&a));
}

#[test]
fn tab_moves_to_next_and_consumes() {
    let a = id("a");
    let mut fm = FocusManager(Some("a".to_string()));
    let mut ev = key_down(Keycode::Tab, 0, false);
    behave(&a, &mut fm, &mut ev);
    assert_eq!(fm.0.as_deref(), Some("a-next"));
    assert!(ev.consumed());
    assert!(matches!(ev.consumed_status(), ConsumedStatus::ConsumedByWidget));
}

#[test]
fn shift_tab_moves_to_previous() {
    let a = id("a");
    for keymod in [LSHIFTMOD, RSHIFTMOD] {
        let mut fm = FocusManager(Some("a".to_string()));
        let mut ev = key_down(Keycode::Tab, keymod, false);
        behave(&a, &mut fm, &mut ev);
        assert_eq!(fm.0.as_deref(), Some("a-prev"));
        assert!(ev.consumed());
    }
}

#[test]
fn repeated_tab_is_consumed_without_moving() {
    let a = id("a");
    let mut fm = FocusManager(Some("a".to_string()));
    let mut ev = key_down(Keycode::Tab, 0, true);
    behave(&a, &mut fm, &mut ev);
    assert_eq!(fm.0.as_deref(), Some("a"));
    assert!(ev.consumed());
}

#[test]
fn escape_unfocuses() {
    let a = id("a");
    let mut fm = FocusManager(Some("a".to_string()));
    let mut ev = key_down(Keycode::Escape, 0, false);
    behave(&a, &mut fm, &mut ev);
    assert_eq!(fm.0, None);
    assert!(ev.consumed());
}

#[test]
fn keys_ignored_when_not_focused() {
    let a = id("a");
    let mut fm = FocusManager(Some("b".to_string()));
    let mut ev = key_down(Keycode::Tab, 0, false);
    behave(&a, &mut fm, &mut ev);
    assert_eq!(fm.0.as_deref(), Some("b"));
    assert!(ev.available());
}

#[test]
fn hover_focuses_without_consuming() {
    let a = id("a");
    let mut fm = FocusManager(Some("b".to_string()));
    let mut ev = motion(5, 5, 1);
    behave(&a, &mut fm, &mut ev);
    assert_eq!(fm.0.as_deref(), Some("a"));
    assert!(ev.available());
    // other window: nothing
    let mut fm2 = FocusManager(None);
    let mut ev2 = motion(5, 5, 2);
    behave(&a, &mut fm2, &mut ev2);
    assert_eq!(fm2.0, None);
    // outside the position: nothing
    let mut ev3 = motion(50, 5, 1);
    behave(&a, &mut fm2, &mut ev3);
    assert_eq!(fm2.0, None);
}

#[test]
fn point_in_position_respects_clip() {
    assert!(point_in_position_and_clipping_rect(1, 1, POS, ClippingRect::Unclipped));
    assert!(!point_in_position_and_clipping_rect(1, 1, POS, ClippingRect::Zero));
    assert!(!point_in_position_and_clipping_rect(
        1,
        1,
        POS,
        ClippingRect::Clip(Rect { x: 5, y: 5, w: 5, h: 5 })
    ));
    assert!(point_in_position_and_clipping_rect(
        6,
        6,
        POS,
        ClippingRect::Clip(Rect { x: 5, y: 5, w: 5, h: 5 })
    ));
    assert!(!point_in_position_and_clipping_rect(11, 1, POS, ClippingRect::Unclipped));
}

#[test]
fn start_focus_behavior_uses_unconsumed_tabs() {
    let mut fm = FocusManager(None);
    let mut events = vec![key_down(Keycode::Tab, 0, false)];
    fm.default_start_focus_behavior(&mut events, "first", "last");
    assert_eq!(fm.0.as_deref(), Some("first"));
    assert!(events[0].consumed());

    let mut fm = FocusManager(None);
    let mut events = vec![key_down(Keycode::Tab, LSHIFTMOD, false)];
    fm.default_start_focus_behavior(&mut events, "first", "last");
    assert_eq!(fm.0.as_deref(), Some("last"));

    // a tab some widget consumed already is left alone
    let mut fm = FocusManager(None);
    let mut consumed = key_down(Keycode::Tab, 0, false);
    consumed.set_consumed();
    let mut events = vec![consumed, motion(0, 0, 1)];
    fm.default_start_focus_behavior(&mut events, "first", "last");
    assert_eq!(fm.0, None);
    assert!(events[1].available());

    // repeats are consumed and do nothing
    let mut fm = FocusManager(None);
    let mut events = vec![key_down(Keycode::Tab, 0, true)];
    fm.default_start_focus_behavior(&mut events, "first", "last");
    assert_eq!(fm.0, None);
    assert!(events[0].consumed());
}

#[test]
fn event_consumption_states() {
    let mut ev = motion(0, 0, 1);
    assert!(ev.available());
    assert!(!ev.consumed());
    assert!(matches!(ev.consumed_status(), ConsumedStatus::NotConsumed));
    ev.set_consumed();
    assert!(ev.consumed());
    assert!(matches!(ev.consumed_status(), ConsumedStatus::ConsumedByWidget));
    ev.set_consumed_by_layout();
    assert!(ev.consumed());
    assert!(matches!(ev.consumed_status(), ConsumedStatus::ConsumedByLayout));
    assert!(matches!(ev.event(), Event::MouseMotion { .. }));
}
