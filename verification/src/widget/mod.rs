use vstd::prelude::*;

pub mod background;
pub mod border;
pub mod button;
pub mod checkbox;
pub mod debug;
pub mod single_line_text_input;

verus! {

/// The keys that widgets react to. Every other key is carried by its raw
/// key code.
#[derive(Debug, Clone, Copy, PartialEq, Eq, Structural)]
pub enum Keycode {
    Tab,
    Escape,
    Return,
    Backspace,
    Other(i32),
}

/// bit of the key modifier state: left shift held
pub const LSHIFTMOD: u16 = 0x0001u16;
/// bit of the key modifier state: right shift held
pub const RSHIFTMOD: u16 = 0x0002u16;
/// bit of the key modifier state: left control held
pub const LCTRLMOD: u16 = 0x0040u16;
/// bit of the key modifier state: right control held
pub const RCTRLMOD: u16 = 0x0080u16;

/// either shift key is held in the modifier state `keymod`
pub open spec fn shift_held(keymod: u16) -> bool {
    keymod & LSHIFTMOD != 0 || keymod & RSHIFTMOD != 0
}

/// either control key is held in the modifier state `keymod`
pub open spec fn ctrl_held(keymod: u16) -> bool {
    keymod & LCTRLMOD != 0 || keymod & RCTRLMOD != 0
}

pub fn is_shift_held(keymod: u16) -> (r: bool)
    ensures
        r == shift_held(keymod),
{
    keymod & LSHIFTMOD != 0 || keymod & RSHIFTMOD != 0
}

pub fn is_ctrl_held(keymod: u16) -> (r: bool)
    ensures
        r == ctrl_held(keymod),
{
    keymod & LCTRLMOD != 0 || keymod & RCTRLMOD != 0
}

#[derive(Debug, Clone, Copy, PartialEq, Eq, Structural)]
pub enum MouseButton {
    Left,
    Other,
}

#[derive(Debug, Clone, Copy, PartialEq, Eq, Structural)]
pub enum MouseWheelDirection {
    Normal,
    Flipped,
    Unknown,
}

/// The window events that matter to widgets.
#[derive(Debug, Clone, Copy, PartialEq, Eq, Structural)]
pub enum WindowEvent {
    Hidden,
    Minimized,
    Leave,
    FocusLost,
    Close,
    Other,
}

/// An input event, holding what the widgets read of it.
#[derive(Debug, Clone)]
pub enum Event {
    KeyDown { timestamp: u32, window_id: u32, keycode: Option<Keycode>, keymod: u16, repeat: bool },
    KeyUp { timestamp: u32, window_id: u32, keycode: Option<Keycode>, keymod: u16, repeat: bool },
    TextInput { timestamp: u32, window_id: u32, text: String },
    MouseMotion { timestamp: u32, window_id: u32, left_pressed: bool, x: i32, y: i32 },
    MouseButtonDown { timestamp: u32, window_id: u32, mouse_btn: MouseButton, x: i32, y: i32 },
    MouseButtonUp { timestamp: u32, window_id: u32, mouse_btn: MouseButton, x: i32, y: i32 },
    MouseWheel {
        timestamp: u32,
        window_id: u32,
        x: i32,
        y: i32,
        direction: MouseWheelDirection,
        mouse_x: i32,
        mouse_y: i32,
    },
    Window { timestamp: u32, window_id: u32, win_event: WindowEvent },
    Other { timestamp: u32 },
}

/// two purposes:
///  - used to indicate which events were not used by the UI and should be
///    passed down to the rest of the application
///  - used to ensure that a single widget uses an event
#[derive(Debug, Clone, Copy, PartialEq, Eq, Structural)]
pub enum ConsumedStatus {
    /// this event has not been consumed by any widget
    NotConsumed,
    /// this event has been consumed by a non-layout widget. for the most part,
    /// it should be considered consumed, but it might still be used by layouts
    /// (e.g. scroller)
    ConsumedByWidget,
    /// this event has been consumed by a layout, and should not be used by
    /// anything else
    ConsumedByLayout,
}

/// An event, with a record of whether a widget has used it.
#[derive(Debug)]
pub struct SDLEvent {
    pub e: Event,
    consumed_status: ConsumedStatus,
}

impl SDLEvent {
    /// how far the event has been consumed
    pub closed spec fn status(&self) -> ConsumedStatus {
        self.consumed_status
    }

    /// the event itself
    pub closed spec fn ev(&self) -> Event {
        self.e
    }

    pub fn event(&self) -> (r: &Event)
        ensures
            *r == self.ev(),
    {
        &self.e
    }

    pub open spec fn is_available(&self) -> bool {
        self.status() is NotConsumed
    }

    pub fn consumed(&self) -> (r: bool)
        ensures
            r == !self.is_available(),
    {
        match self.consumed_status {
            ConsumedStatus::NotConsumed => false,
            _ => true,
        }
    }

    pub fn available(&self) -> (r: bool)
        ensures
            r == self.is_available(),
    {
        !self.consumed()
    }

    pub fn consumed_status(&self) -> (r: ConsumedStatus)
        ensures
            r == self.status(),
    {
        self.consumed_status
    }

    /// an event is consumed once
    pub fn set_consumed(&mut self)
        requires
            old(self).is_available(),
        ensures
            final(self).status() == ConsumedStatus::ConsumedByWidget,
            final(self).ev() == old(self).ev(),
    {
        self.consumed_status = ConsumedStatus::ConsumedByWidget;
    }

    /// a layout consumes an event at most once
    pub fn set_consumed_by_layout(&mut self)
        requires
            !(old(self).status() is ConsumedByLayout),
        ensures
            final(self).status() == ConsumedStatus::ConsumedByLayout,
            final(self).ev() == old(self).ev(),
    {
        self.consumed_status = ConsumedStatus::ConsumedByLayout;
    }

    pub fn new(e: Event) -> (r: Self)
        ensures
            r.ev() == e,
            r.is_available(),
    {
        Self { e, consumed_status: ConsumedStatus::NotConsumed }
    }
}

} // verus!
