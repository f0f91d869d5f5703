use tiny_sdl2_gui::util::geometry::{ClippingRect, Point, Rect};
use tiny_sdl2_gui::widget::background::{background_plan, BackgroundPlan};
use tiny_sdl2_gui::widget::button::ButtonTextureVariant;
use tiny_sdl2_gui::util::render::{bracket_outline, caret_points, check_mark_points, corner_bracket_points};
use tiny_sdl2_gui::widget::checkbox::{
    checkbox_mark_color, checkbox_outline_color, CheckBoxTextureVariant, DefaultCheckBoxStyle,
};
use tiny_sdl2_gui::widget::debug::{debug_rect_outline_points, debug_update_clicks};
use tiny_sdl2_gui::widget::single_line_text_input::{text_input_outline_color, DefaultSingleLineEditStyle};
use tiny_sdl2_gui::widget::{Event, MouseButton, SDLEvent};

fn up(x: i32, y: i32, window_id: u32) -> SDLEvent {
    SDLEvent::new(Event::MouseButtonUp { timestamp: 0, window_id, mouse_btn: MouseButton::Left, x, y })
}

#[test]
fn debug_widget_clicks() {
    let pos = Rect { x: 0, y: 0, w: 10, h: 10 };
    let mut events = vec![up(20, 20, 1), up(5, 5, 2), up(5, 5, 1)];
    assert!(debug_update_clicks(Some(pos), ClippingRect::Unclipped, 1, &mut events));
    assert!(events[0].available() && events[1].available() && events[2].consumed());

    let mut events = vec![up(5, 5, 1)];
    assert!(!debug_update_clicks(None, ClippingRect::Unclipped, 1, &mut events));
    assert!(events[0].available());

    let mut events = vec![up(5, 5, 1)];
    assert!(!debug_update_clicks(Some(pos), ClippingRect::Zero, 1, &mut events));
}

#[test]
fn debug_outline() {
    let pts = debug_rect_outline_points(Rect { x: 2, y: 3, w: 4, h: 5 });
    let p = |x, y| Point { x, y };
    assert_eq!(pts, [p(2, 3), p(5, 3), p(5, 7), p(2, 7), p(2, 3), p(5, 7)]);
}

#[test]
fn style_colors() {
    assert_eq!(checkbox_outline_color(CheckBoxTextureVariant::Idle), (50, 50, 50));
    assert_eq!(checkbox_outline_color(CheckBoxTextureVariant::Focused), (118, 73, 206));
    assert_eq!(checkbox_outline_color(CheckBoxTextureVariant::FocusedPressedChecked), (200, 200, 200));
    assert_eq!(checkbox_mark_color(CheckBoxTextureVariant::CheckedPressed), (50, 0, 20));
    assert_eq!(checkbox_mark_color(CheckBoxTextureVariant::Checked), (0, 160, 0));
    assert_eq!(checkbox_mark_color(CheckBoxTextureVariant::FocusedPressed), (100, 200, 100));
    assert_eq!(checkbox_mark_color(CheckBoxTextureVariant::Focused), (50, 50, 50));
    assert_eq!(ButtonTextureVariant::Idle.outline_color(), (50, 50, 50));
    assert_eq!(ButtonTextureVariant::Focused.outline_color(), (118, 73, 206));
    assert_eq!(ButtonTextureVariant::FocusedPressed.outline_color(), (200, 200, 200));
    assert_eq!(text_input_outline_color(true), (118, 73, 206));
    assert_eq!(text_input_outline_color(false), (50, 50, 50));
}

#[test]
fn background_cache_plans() {
    assert_eq!(background_plan(None, 100, 50, 3), BackgroundPlan::Fresh { w: 33, h: 16 });
    assert_eq!(background_plan(Some((40, 20)), 100, 50, 3), BackgroundPlan::Reuse);
    assert_eq!(
        background_plan(Some((40, 10)), 100, 50, 3),
        BackgroundPlan::Expand { old_w: 40, old_h: 10, new_w: 40, new_h: 16 }
    );
    assert_eq!(
        background_plan(Some((10, 10)), 100, 50, 1),
        BackgroundPlan::Expand { old_w: 10, old_h: 10, new_w: 100, new_h: 50 }
    );
}

#[test]
fn bracket_outline_needs_room() {
    assert!(bracket_outline((5, 30)).is_none());
    assert!(bracket_outline((30, 5)).is_none());
    assert_eq!(bracket_outline((6, 6)), Some(corner_bracket_points(5, (6, 6))));
}

#[test]
fn checkbox_default_look() {
    let style = DefaultCheckBoxStyle::default();
    assert!(style.drawing(CheckBoxTextureVariant::Checked, (5, 30)).is_none());

    // room for the brackets but not for the mark
    let d = style.drawing(CheckBoxTextureVariant::Checked, (10, 30)).unwrap();
    assert_eq!(d.outline, ((50, 50, 50), corner_bracket_points(5, (10, 30))));
    assert!(d.mark.is_none());

    let d = style.drawing(CheckBoxTextureVariant::FocusedPressedChecked, (30, 30)).unwrap();
    assert_eq!(d.outline, ((200, 200, 200), corner_bracket_points(5, (30, 30))));
    assert_eq!(d.mark, Some(((50, 0, 20), check_mark_points(10, (30, 30)))));
    assert_eq!(
        d.mark.unwrap().1,
        [[Point { x: 10, y: 10 }, Point { x: 20, y: 20 }], [Point { x: 10, y: 20 }, Point { x: 20, y: 10 }]]
    );
}

#[test]
fn text_input_default_look() {
    let style = DefaultSingleLineEditStyle::default();
    assert!(style.drawing(true, (100, 5), 50).is_none());
    let d = style.drawing(true, (100, 30), 50).unwrap();
    assert_eq!(d.color, (118, 73, 206));
    assert_eq!(d.brackets, corner_bracket_points(5, (100, 30)));
    assert_eq!(d.caret, caret_points(50, 5, (100, 30)));
    assert_eq!(d.caret, [Point { x: 50, y: 0 }, Point { x: 50, y: 30 }]);
    let d = style.drawing(false, (100, 30), 0).unwrap();
    assert_eq!(d.color, (50, 50, 50));
    assert_eq!(d.caret, [Point { x: 0, y: 12 }, Point { x: 0, y: 17 }]);
}
