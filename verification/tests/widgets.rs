use std::cell::RefCell;

use compact_str::CompactString;
use tiny_sdl2_gui::util::focus::{FocusID, FocusManager};
use tiny_sdl2_gui::util::geometry::{ClippingRect, Rect};
use tiny_sdl2_gui::widget::button::ButtonTextureVariant;
use tiny_sdl2_gui::widget::checkbox::CheckBoxTextureVariant::{
    Checked, CheckedPressed, FocusChecked, Focused, FocusedPressed, FocusedPressedChecked, Idle,
};
use tiny_sdl2_gui::widget::checkbox::{
    focus_press_update_implementation, CheckBoxTextureVariant, PressEffects, EmptyFocusPressWidgetSoundStyle,
    FocusPressWidgetSoundStyle, FocusPressWidgetSoundVariant,
};
use tiny_sdl2_gui::widget::single_line_text_input::{
    erase_text, single_line_text_input_update, typing_sound_allowed,
    EmptySingleLineTextInputSoundStyle, SingleLineTextEditState, SingleLineTextInputSoundStyle,
    SingleLineTextInputSoundVariant, TextEffects,
};
use tiny_sdl2_gui::widget::{ConsumedStatus, Event, Keycode, MouseButton, SDLEvent, LCTRLMOD};

const POS: Rect = Rect { x: 0, y: 0, w: 10, h: 10 };

fn id(me: &str) -> FocusID {
    FocusID { previous: format!("{me}-prev"), me: me.to_string(), next: format!("{me}-next") }
}

#[derive(Default)]
struct Recorder {
    played: Vec<FocusPressWidgetSoundVariant>,
    fail: bool,
}

impl FocusPressWidgetSoundStyle for Recorder {
    fn play_sound(&mut self, which: FocusPressWidgetSoundVariant) -> Result<(), String> {
        self.played.push(which);
        if self.fail {
            Err("no sound".to_string())
        } else {
            Ok(())
        }
    }
}

fn left(down: bool, x: i32, y: i32) -> SDLEvent {
    if down {
        SDLEvent::new(Event::MouseButtonDown { timestamp: 0, window_id: 1, mouse_btn: MouseButton::Left, x, y })
    } else {
        SDLEvent::new(Event::MouseButtonUp { timestamp: 0, window_id: 1, mouse_btn: MouseButton::Left, x, y })
    }
}

#[test]
fn checkbox_variant_flags() {
    assert!(Focused.focused() && !Focused.pressed() && !Focused.checked());
    assert!(FocusedPressed.focused() && FocusedPressed.pressed() && !FocusedPressed.checked());
    assert!(FocusChecked.focused() && !FocusChecked.pressed() && FocusChecked.checked());
    assert!(FocusedPressedChecked.focused() && FocusedPressedChecked.pressed() && FocusedPressedChecked.checked());
    assert!(!Checked.focused() && !Checked.pressed() && Checked.checked());
    assert!(!CheckedPressed.focused() && CheckedPressed.pressed() && CheckedPressed.checked());
    assert!(!Idle.focused() && !Idle.pressed() && !Idle.checked());
}

#[test]
fn checkbox_variant_selection() {
    assert_eq!(CheckBoxTextureVariant::select(true, true, true), CheckBoxTextureVariant::FocusedPressedChecked);
    assert_eq!(CheckBoxTextureVariant::select(true, false, false), CheckBoxTextureVariant::Focused);
    assert_eq!(CheckBoxTextureVariant::select(false, true, true), CheckBoxTextureVariant::CheckedPressed);
    assert_eq!(CheckBoxTextureVariant::select(false, true, false), CheckBoxTextureVariant::Idle);
    assert_eq!(ButtonTextureVariant::select(true, true), ButtonTextureVariant::FocusedPressed);
    assert_eq!(ButtonTextureVariant::select(true, false), ButtonTextureVariant::Focused);
    assert_eq!(ButtonTextureVariant::select(false, true), ButtonTextureVariant::Idle);
}

#[test]
fn empty_sound_styles_succeed() {
    let mut s = EmptyFocusPressWidgetSoundStyle {};
    assert!(s.play_sound(FocusPressWidgetSoundVariant::Press).is_ok());
    let mut t = EmptySingleLineTextInputSoundStyle {};
    assert!(t.play_sound(SingleLineTextInputSoundVariant::Enter).is_ok());
}

#[test]
fn click_presses_and_runs_functionality() {
    let fid = id("box");
    let mut fm = FocusManager(None);
    let (mut hovered, mut pressed, mut prev) = (false, false, false);
    let mut sounds = Recorder::default();
    let mut count = 0;
    let mut functionality = || -> Result<(), String> {
        count += 1;
        Ok(())
    };
    let mut events = vec![left(true, 2, 2)];
    focus_press_update_implementation(
        &mut hovered, &mut pressed, &mut prev, &fid, &mut fm, Some(POS), ClippingRect::Unclipped, 1,
        &mut events, &mut PressEffects::new(&mut functionality, &mut sounds),
    )
    .unwrap();
    assert!(pressed && hovered && prev);
    assert_eq!(fm.0.as_deref(), Some("box"));
    assert!(events[0].consumed());

    let mut events = vec![left(false, 2, 2)];
    focus_press_update_implementation(
        &mut hovered, &mut pressed, &mut prev, &fid, &mut fm, Some(POS), ClippingRect::Unclipped, 1,
        &mut events, &mut PressEffects::new(&mut functionality, &mut sounds),
    )
    .unwrap();
    assert!(!pressed && hovered);
    assert!(events[0].consumed());
    drop(functionality);
    assert_eq!(count, 1);
    assert_eq!(
        sounds.played,
        vec![FocusPressWidgetSoundVariant::Press, FocusPressWidgetSoundVariant::Release]
    );
}

#[test]
fn click_outside_does_nothing() {
    let fid = id("box");
    let mut fm = FocusManager(None);
    let (mut hovered, mut pressed, mut prev) = (true, true, false);
    let mut sounds = Recorder::default();
    let mut functionality = || -> Result<(), String> { Ok(()) };
    let mut events = vec![left(true, 20, 2)];
    focus_press_update_implementation(
        &mut hovered, &mut pressed, &mut prev, &fid, &mut fm, Some(POS), ClippingRect::Unclipped, 1,
        &mut events, &mut PressEffects::new(&mut functionality, &mut sounds),
    )
    .unwrap();
    assert!(!pressed && !hovered && !prev);
    assert!(events[0].available());
    assert_eq!(fm.0, None);
}

#[test]
fn enter_key_when_focused() {
    let fid = id("box");
    let mut fm = FocusManager(Some("box".to_string()));
    let (mut hovered, mut pressed, mut prev) = (false, false, true);
    let mut sounds = Recorder::default();
    let mut count = 0;
    let mut functionality = || -> Result<(), String> {
        count += 1;
        Ok(())
    };
    let mut events = vec![
        SDLEvent::new(Event::KeyDown { timestamp: 0, window_id: 1, keycode: Some(Keycode::Return), keymod: 0, repeat: false }),
        SDLEvent::new(Event::KeyUp { timestamp: 0, window_id: 1, keycode: Some(Keycode::Return), keymod: 0, repeat: false }),
    ];
    focus_press_update_implementation(
        &mut hovered, &mut pressed, &mut prev, &fid, &mut fm, None, ClippingRect::Unclipped, 1,
        &mut events, &mut PressEffects::new(&mut functionality, &mut sounds),
    )
    .unwrap();
    drop(functionality);
    assert_eq!(count, 1);
    assert!(pressed);
    assert!(events[0].consumed() && events[1].consumed());
}

#[test]
fn sound_error_is_returned() {
    let fid = id("box");
    let mut fm = FocusManager(None);
    let (mut hovered, mut pressed, mut prev) = (false, false, false);
    let mut sounds = Recorder { played: vec![], fail: true };
    let mut functionality = || -> Result<(), String> { Ok(()) };
    let mut events = vec![left(true, 2, 2)];
    let r = focus_press_update_implementation(
        &mut hovered, &mut pressed, &mut prev, &fid, &mut fm, Some(POS), ClippingRect::Unclipped, 1,
        &mut events, &mut PressEffects::new(&mut functionality, &mut sounds),
    );
    assert_eq!(r, Err("no sound".to_string()));
}

struct Text(RefCell<CompactString>);

impl SingleLineTextEditState for Text {
    fn get(&self) -> CompactString {
        self.0.borrow().clone()
    }
    fn set(&self, new: CompactString) {
        *self.0.borrow_mut() = new;
    }
}

#[derive(Default)]
struct TextSounds(Vec<SingleLineTextInputSoundVariant>);

impl SingleLineTextInputSoundStyle for TextSounds {
    fn play_sound(&mut self, which: SingleLineTextInputSoundVariant) -> Result<(), String> {
        self.0.push(which);
        Ok(())
    }
}

fn typed(text: &str, timestamp: u32) -> SDLEvent {
    SDLEvent::new(Event::TextInput { timestamp, window_id: 1, text: text.to_string() })
}

fn backspace(timestamp: u32, keymod: u16) -> SDLEvent {
    SDLEvent::new(Event::KeyDown { timestamp, window_id: 1, keycode: Some(Keycode::Backspace), keymod, repeat: false })
}

#[test]
fn text_input_editing() {
    let fid = id("input");
    let mut fm = FocusManager(Some("input".to_string()));
    let text = Text(RefCell::new(CompactString::new("ab")));
    let (mut prev_frame, mut prev_ts) = (true, 0u32);
    let mut sounds = TextSounds::default();
    let mut enters = 0;
    let mut functionality = || -> Result<(), String> {
        enters += 1;
        Ok(())
    };
    let mut events = vec![
        typed("cd", 100),
        typed("e", 120),
        backspace(200, 0),
        SDLEvent::new(Event::KeyUp { timestamp: 300, window_id: 1, keycode: Some(Keycode::Return), keymod: 0, repeat: false }),
    ];
    single_line_text_input_update(
        &fid, &mut fm, &mut prev_frame, &mut prev_ts, Some(POS), ClippingRect::Unclipped, 1,
        &mut events, &mut TextEffects::new(&text, &mut sounds, &mut functionality),
    )
    .unwrap();
    drop(functionality);
    assert_eq!(text.get().as_str(), "abcd");
    assert_eq!(enters, 1);
    assert!(events.iter().all(|e| e.consumed()));
    // the second typing sound came too soon after the first
    assert_eq!(
        sounds.0,
        vec![
            SingleLineTextInputSoundVariant::TextAdded,
            SingleLineTextInputSoundVariant::TextRemoved,
            SingleLineTextInputSoundVariant::Enter
        ]
    );
    assert_eq!(prev_ts, 200);
    assert!(prev_frame);

    let mut events = vec![backspace(400, LCTRLMOD)];
    let mut functionality = || -> Result<(), String> { Ok(()) };
    single_line_text_input_update(
        &fid, &mut fm, &mut prev_frame, &mut prev_ts, Some(POS), ClippingRect::Unclipped, 1,
        &mut events, &mut TextEffects::new(&text, &mut sounds, &mut functionality),
    )
    .unwrap();
    assert_eq!(text.get().as_str(), "");
}

#[test]
fn text_input_ignores_keys_without_focus() {
    let fid = id("input");
    let mut fm = FocusManager(Some("other".to_string()));
    let text = Text(RefCell::new(CompactString::new("ab")));
    let (mut prev_frame, mut prev_ts) = (false, 0u32);
    let mut sounds = TextSounds::default();
    let mut functionality = || -> Result<(), String> { Ok(()) };
    let mut events = vec![typed("x", 100), backspace(200, 0)];
    single_line_text_input_update(
        &fid, &mut fm, &mut prev_frame, &mut prev_ts, Some(POS), ClippingRect::Unclipped, 1,
        &mut events, &mut TextEffects::new(&text, &mut sounds, &mut functionality),
    )
    .unwrap();
    assert_eq!(text.get().as_str(), "ab");
    assert!(events.iter().all(|e| e.available()));
    assert!(sounds.0.is_empty());
    assert!(!prev_frame);
}

#[test]
fn text_input_focus_sound_on_gaining_focus() {
    let fid = id("input");
    let mut fm = FocusManager(None);
    let text = Text(RefCell::new(CompactString::new("")));
    let (mut prev_frame, mut prev_ts) = (false, 0u32);
    let mut sounds = TextSounds::default();
    let mut functionality = || -> Result<(), String> { Ok(()) };
    let mut events = vec![SDLEvent::new(Event::MouseMotion { timestamp: 0, window_id: 1, left_pressed: false, x: 1, y: 1 })];
    single_line_text_input_update(
        &fid, &mut fm, &mut prev_frame, &mut prev_ts, Some(POS), ClippingRect::Unclipped, 1,
        &mut events, &mut TextEffects::new(&text, &mut sounds, &mut functionality),
    )
    .unwrap();
    assert_eq!(fm.0.as_deref(), Some("input"));
    assert_eq!(sounds.0, vec![SingleLineTextInputSoundVariant::Focus]);
    assert!(events[0].available());
    assert!(prev_frame);
}

#[test]
fn erase_and_limiter() {
    let mut s = CompactString::new("héllo");
    erase_text(&mut s, false);
    assert_eq!(s.as_str(), "héll");
    erase_text(&mut s, true);
    assert_eq!(s.as_str(), "");
    erase_text(&mut s, false);
    assert_eq!(s.as_str(), "");
    assert!(typing_sound_allowed(100, 50));
    assert!(!typing_sound_allowed(99, 50));
    assert!(typing_sound_allowed(10, 50));
}

#[test]
fn consumed_events_are_left_alone() {
    // a pressable widget: a click that another widget took already
    let fid = id("box");
    let mut fm = FocusManager(None);
    let (mut hovered, mut pressed, mut prev) = (false, false, false);
    let mut sounds = Recorder::default();
    let mut functionality = || -> Result<(), String> { Err("must not run".to_string()) };
    let mut events = vec![left(true, 2, 2), left(false, 2, 2)];
    events[0].set_consumed();
    events[1].set_consumed_by_layout();
    focus_press_update_implementation(
        &mut hovered, &mut pressed, &mut prev, &fid, &mut fm, Some(POS), ClippingRect::Unclipped, 1,
        &mut events, &mut PressEffects::new(&mut functionality, &mut sounds),
    )
    .unwrap();
    assert!(!pressed && !hovered && !prev);
    assert_eq!(fm.0, None);
    assert!(sounds.played.is_empty());
    assert!(matches!(events[0].consumed_status(), ConsumedStatus::ConsumedByWidget));
    assert!(matches!(events[1].consumed_status(), ConsumedStatus::ConsumedByLayout));

    // a focused text input: typed text that another widget took already
    let fid = id("input");
    let mut fm = FocusManager(Some("input".to_string()));
    let text = Text(RefCell::new(CompactString::new("ab")));
    let (mut prev_frame, mut prev_ts) = (true, 0u32);
    let mut sounds = TextSounds::default();
    let mut functionality = || -> Result<(), String> { Ok(()) };
    let mut events = vec![typed("x", 100)];
    events[0].set_consumed();
    single_line_text_input_update(
        &fid, &mut fm, &mut prev_frame, &mut prev_ts, Some(POS), ClippingRect::Unclipped, 1,
        &mut events, &mut TextEffects::new(&text, &mut sounds, &mut functionality),
    )
    .unwrap();
    assert_eq!(text.get().as_str(), "ab");
    assert!(sounds.0.is_empty());
    assert!(matches!(events[0].consumed_status(), ConsumedStatus::ConsumedByWidget));
}

#[test]
fn backspace_on_empty_text_is_silent() {
    let fid = id("input");
    let mut fm = FocusManager(Some("input".to_string()));
    let text = Text(RefCell::new(CompactString::new("")));
    let (mut prev_frame, mut prev_ts) = (true, 0u32);
    let mut sounds = TextSounds::default();
    let mut functionality = || -> Result<(), String> { Ok(()) };
    let mut events = vec![backspace(200, 0)];
    single_line_text_input_update(
        &fid, &mut fm, &mut prev_frame, &mut prev_ts, Some(POS), ClippingRect::Unclipped, 1,
        &mut events, &mut TextEffects::new(&text, &mut sounds, &mut functionality),
    )
    .unwrap();
    assert_eq!(text.get().as_str(), "");
    assert!(sounds.0.is_empty());
    assert_eq!(prev_ts, 0);
    assert!(events[0].consumed());
}

#[test]
fn no_outside_call_means_success() {
    // failing sounds and functionality are never reached by a click elsewhere
    let fid = id("box");
    let mut fm = FocusManager(None);
    let (mut hovered, mut pressed, mut prev) = (false, false, false);
    let mut sounds = Recorder { played: Vec::new(), fail: true };
    let mut functionality = || -> Result<(), String> { Err("must not run".to_string()) };
    let mut events = vec![left(true, 20, 20), left(false, 20, 20)];
    assert!(focus_press_update_implementation(
        &mut hovered, &mut pressed, &mut prev, &fid, &mut fm, Some(POS), ClippingRect::Unclipped, 1,
        &mut events, &mut PressEffects::new(&mut functionality, &mut sounds),
    )
    .is_ok());
    assert!(sounds.played.is_empty());
}

#[test]
fn functionality_error_stops_the_update() {
    let fid = id("box");
    let mut fm = FocusManager(None);
    let (mut hovered, mut pressed, mut prev) = (false, false, false);
    let mut sounds = Recorder::default();
    let mut functionality = || -> Result<(), String> { Err("boom".to_string()) };
    let mut events = vec![left(false, 2, 2), left(true, 2, 2)];
    let r = focus_press_update_implementation(
        &mut hovered, &mut pressed, &mut prev, &fid, &mut fm, Some(POS), ClippingRect::Unclipped, 1,
        &mut events, &mut PressEffects::new(&mut functionality, &mut sounds),
    );
    assert_eq!(r, Err("boom".to_string()));
    // the release was handled before the functionality ran; the press after it was not
    assert!(events[0].consumed());
    assert!(events[1].available());
    assert_eq!(fm.0.as_deref(), Some("box"));
    assert!(hovered && !pressed && !prev);
    assert_eq!(sounds.played, vec![FocusPressWidgetSoundVariant::Release]);
}

#[test]
fn failed_focus_sound_changes_nothing() {
    let fid = id("box");
    let mut fm = FocusManager(Some("box".to_string()));
    let (mut hovered, mut pressed, mut prev) = (true, true, false);
    let mut sounds = Recorder { played: vec![], fail: true };
    let mut functionality = || -> Result<(), String> { Ok(()) };
    let mut events = vec![left(true, 2, 2)];
    let r = focus_press_update_implementation(
        &mut hovered, &mut pressed, &mut prev, &fid, &mut fm, Some(POS), ClippingRect::Unclipped, 1,
        &mut events, &mut PressEffects::new(&mut functionality, &mut sounds),
    );
    assert!(r.is_err());
    assert!(hovered && pressed && !prev);
    assert!(events[0].available());
    assert_eq!(sounds.played, vec![FocusPressWidgetSoundVariant::Focus]);
}

#[test]
fn press_sounds_in_order() {
    // hovering plays the focus sound once, a press plays the press sound
    let fid = id("box");
    let mut fm = FocusManager(None);
    let (mut hovered, mut pressed, mut prev) = (false, false, false);
    let mut sounds = Recorder::default();
    let mut functionality = || -> Result<(), String> { Ok(()) };
    let motion = |x| SDLEvent::new(Event::MouseMotion { timestamp: 0, window_id: 1, left_pressed: false, x, y: 2 });
    let mut events = vec![motion(2), motion(3), left(true, 3, 2)];
    focus_press_update_implementation(
        &mut hovered, &mut pressed, &mut prev, &fid, &mut fm, Some(POS), ClippingRect::Unclipped, 1,
        &mut events, &mut PressEffects::new(&mut functionality, &mut sounds),
    )
    .unwrap();
    assert_eq!(
        sounds.played,
        vec![FocusPressWidgetSoundVariant::Focus, FocusPressWidgetSoundVariant::Press]
    );
    assert!(events[0].available() && events[1].available() && events[2].consumed());
}

#[derive(Default)]
struct FailingTextSounds(Vec<SingleLineTextInputSoundVariant>);

impl SingleLineTextInputSoundStyle for FailingTextSounds {
    fn play_sound(&mut self, which: SingleLineTextInputSoundVariant) -> Result<(), String> {
        self.0.push(which);
        Err("no sound".to_string())
    }
}

#[test]
fn text_input_sound_error_leaves_text() {
    let fid = id("input");
    let mut fm = FocusManager(Some("input".to_string()));
    let text = Text(RefCell::new(CompactString::new("ab")));
    let (mut prev_frame, mut prev_ts) = (true, 0u32);
    let mut sounds = FailingTextSounds::default();
    let mut functionality = || -> Result<(), String> { Ok(()) };
    let mut events = vec![typed("x", 100), typed("y", 300)];
    let r = single_line_text_input_update(
        &fid, &mut fm, &mut prev_frame, &mut prev_ts, Some(POS), ClippingRect::Unclipped, 1,
        &mut events, &mut TextEffects::new(&text, &mut sounds, &mut functionality),
    );
    assert_eq!(r, Err("no sound".to_string()));
    assert_eq!(text.get().as_str(), "ab");
    assert_eq!(prev_ts, 100);
    assert!(events[0].consumed() && events[1].available());
    assert_eq!(sounds.0, vec![SingleLineTextInputSoundVariant::TextAdded]);
}

#[test]
fn text_input_enter_runs_functionality_after_sound() {
    let fid = id("input");
    let mut fm = FocusManager(Some("input".to_string()));
    let text = Text(RefCell::new(CompactString::new("")));
    let (mut prev_frame, mut prev_ts) = (true, 0u32);
    let mut sounds = FailingTextSounds::default();
    let mut runs = 0;
    let mut functionality = || -> Result<(), String> {
        runs += 1;
        Ok(())
    };
    let mut events = vec![SDLEvent::new(Event::KeyUp {
        timestamp: 0, window_id: 1, keycode: Some(Keycode::Return), keymod: 0, repeat: false,
    })];
    let r = single_line_text_input_update(
        &fid, &mut fm, &mut prev_frame, &mut prev_ts, Some(POS), ClippingRect::Unclipped, 1,
        &mut events, &mut TextEffects::new(&text, &mut sounds, &mut functionality),
    );
    // the enter sound failed, so the functionality never ran
    assert!(r.is_err());
    drop(functionality);
    assert_eq!(runs, 0);
    assert!(events[0].consumed());
    assert!(prev_frame);
}

#[test]
fn text_input_enter_returns_functionality_error() {
    let fid = id("input");
    let mut fm = FocusManager(Some("input".to_string()));
    let text = Text(RefCell::new(CompactString::new("ab")));
    let (mut prev_frame, mut prev_ts) = (true, 0u32);
    let mut sounds = TextSounds::default();
    let mut functionality = || -> Result<(), String> { Err("enter failed".to_string()) };
    let mut events = vec![SDLEvent::new(Event::KeyUp {
        timestamp: 0, window_id: 1, keycode: Some(Keycode::Return), keymod: 0, repeat: false,
    })];
    let r = single_line_text_input_update(
        &fid, &mut fm, &mut prev_frame, &mut prev_ts, Some(POS), ClippingRect::Unclipped, 1,
        &mut events, &mut TextEffects::new(&text, &mut sounds, &mut functionality),
    );
    assert_eq!(r, Err("enter failed".to_string()));
    assert_eq!(sounds.0, vec![SingleLineTextInputSoundVariant::Enter]);
    assert!(events[0].consumed());
    assert_eq!(text.get().as_str(), "ab");
}
