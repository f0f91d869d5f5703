use vstd::prelude::*;

use crate::util::calls::{
    calls_made, lemma_calls_made_after, lemma_calls_made_first, lemma_calls_made_prefix, lemma_error_is_last, lemma_ok_is_unit,
    run_functionality,
    succeeded,
};
use crate::util::focus::{
    point_in_position_and_clipping_rect, point_in_position_and_clipping_rect_spec,
    widget_focus_spec, FocusID, FocusManager,
};
use crate::util::geometry::{ClippingRect, Point, Rect};
use crate::util::render::{
    bracket_outline, check_mark_points, check_mark_spec, corner_bracket_spec, size_fits, BRACKET_REACH,
};
use crate::widget::{ConsumedStatus, Event, Keycode, MouseButton, SDLEvent};

verus! {

/// a different texture is rendered for each of the displayed states that a
/// checkbox can have
#[derive(Debug, Clone, Copy, PartialEq, Eq, Structural)]
pub enum CheckBoxTextureVariant {
    Idle,
    Focused,
    // Pressed <- impossible to be pressed yet not focused
    FocusedPressed,
    FocusChecked,
    FocusedPressedChecked,
    Checked,
    CheckedPressed,
}

impl CheckBoxTextureVariant {
    pub open spec fn is_focused(self) -> bool {
        self is Focused || self is FocusedPressed || self is FocusChecked
            || self is FocusedPressedChecked
    }

    pub open spec fn is_pressed(self) -> bool {
        self is FocusedPressed || self is FocusedPressedChecked || self is CheckedPressed
    }

    pub open spec fn is_checked(self) -> bool {
        self is FocusChecked || self is FocusedPressedChecked || self is Checked
            || self is CheckedPressed
    }

    pub fn focused(&self) -> (r: bool)
        ensures
            r == self.is_focused(),
    {
        match self {
            CheckBoxTextureVariant::Focused
            | CheckBoxTextureVariant::FocusedPressed
            | CheckBoxTextureVariant::FocusChecked
            | CheckBoxTextureVariant::FocusedPressedChecked => true,
            _ => false,
        }
    }

    pub fn pressed(&self) -> (r: bool)
        ensures
            r == self.is_pressed(),
    {
        match self {
            CheckBoxTextureVariant::FocusedPressed
            | CheckBoxTextureVariant::FocusedPressedChecked
            | CheckBoxTextureVariant::CheckedPressed => true,
            _ => false,
        }
    }

    pub fn checked(&self) -> (r: bool)
        ensures
            r == self.is_checked(),
    {
        match self {
            CheckBoxTextureVariant::FocusChecked
            | CheckBoxTextureVariant::FocusedPressedChecked
            | CheckBoxTextureVariant::Checked
            | CheckBoxTextureVariant::CheckedPressed => true,
            _ => false,
        }
    }

    /// the variant that a checkbox is drawn with: `focused` when it is the
    /// focus or is hovered, `pressed` while it is held down and `checked` for
    /// its value
    pub open spec fn select_spec(focused: bool, pressed: bool, checked: bool) -> Self {
        if focused {
            if pressed {
                if checked {
                    CheckBoxTextureVariant::FocusedPressedChecked
                } else {
                    CheckBoxTextureVariant::FocusedPressed
                }
            } else if checked {
                CheckBoxTextureVariant::FocusChecked
            } else {
                CheckBoxTextureVariant::Focused
            }
        } else if checked {
            if pressed {
                CheckBoxTextureVariant::CheckedPressed
            } else {
                CheckBoxTextureVariant::Checked
            }
        } else {
            CheckBoxTextureVariant::Idle
        }
    }

    pub fn select(focused: bool, pressed: bool, checked: bool) -> (r: Self)
        ensures
            r == Self::select_spec(focused, pressed, checked),
    {
        if focused {
            if pressed {
                if checked {
                    CheckBoxTextureVariant::FocusedPressedChecked
                } else {
                    CheckBoxTextureVariant::FocusedPressed
                }
            } else if checked {
                CheckBoxTextureVariant::FocusChecked
            } else {
                CheckBoxTextureVariant::Focused
            }
        } else if checked {
            if pressed {
                CheckBoxTextureVariant::CheckedPressed
            } else {
                CheckBoxTextureVariant::Checked
            }
        } else {
            CheckBoxTextureVariant::Idle
        }
    }
}

/// Law: the variant a checkbox is drawn with shows exactly its focus and its
/// value, and shows it pressed when it is pressed, except for an unfocused
/// unchecked checkbox, which has no pressed look.
pub proof fn lemma_select_reflects_state(focused: bool, pressed: bool, checked: bool)
    ensures
        CheckBoxTextureVariant::select_spec(focused, pressed, checked).is_focused() == focused,
        CheckBoxTextureVariant::select_spec(focused, pressed, checked).is_checked() == checked,
        CheckBoxTextureVariant::select_spec(focused, pressed, checked).is_pressed() == (pressed && (
        focused || checked)),
{
}


/// the color of the outline of a checkbox, as red, green, blue
pub open spec fn checkbox_outline_color_spec(variant: CheckBoxTextureVariant) -> (u8, u8, u8) {
    if variant.is_focused() {
        if variant.is_pressed() {
            (200, 200, 200)
        } else {
            (118, 73, 206)
        }
    } else {
        (50, 50, 50)
    }
}

/// Law: the outline of a checkbox shows its focus: the purple (118, 73, 206)
/// exactly when focused (or hovered) and not pressed, the light (200, 200, 200)
/// exactly when focused and pressed, and the dim (50, 50, 50) whenever it is
/// not focused, checked or not, pressed or not.
pub proof fn lemma_checkbox_outline_shows_focus(variant: CheckBoxTextureVariant)
    ensures
        checkbox_outline_color_spec(variant) == (118u8, 73u8, 206u8) <==> (variant
            == CheckBoxTextureVariant::Focused || variant == CheckBoxTextureVariant::FocusChecked),
        checkbox_outline_color_spec(variant) == (200u8, 200u8, 200u8) <==> (variant
            == CheckBoxTextureVariant::FocusedPressed || variant
            == CheckBoxTextureVariant::FocusedPressedChecked),
        checkbox_outline_color_spec(variant) == (50u8, 50u8, 50u8) <==> (variant
            == CheckBoxTextureVariant::Idle || variant == CheckBoxTextureVariant::Checked || variant
            == CheckBoxTextureVariant::CheckedPressed),
{
}

pub fn checkbox_outline_color(variant: CheckBoxTextureVariant) -> (r: (u8, u8, u8))
    ensures
        r == checkbox_outline_color_spec(variant),
{
    if variant.focused() {
        if variant.pressed() {
            (200, 200, 200)
        } else {
            (118, 73, 206)
        }
    } else {
        (50, 50, 50)
    }
}

/// the color of the check mark of a checkbox, as red, green, blue: it fades
/// while a checked box is pressed, and appears while an unchecked one is
pub open spec fn checkbox_mark_color_spec(variant: CheckBoxTextureVariant) -> (u8, u8, u8) {
    if variant.is_checked() {
        if variant.is_pressed() {
            (50, 0, 20)  // falling
        } else {
            (0, 160, 0)
        }
    } else if variant.is_pressed() {
        (100, 200, 100)  // rising
    } else {
        (50, 50, 50)
    }
}

/// Law: the check mark shows the checkbox's value: it is drawn in the green
/// of a checked box exactly for a checked box that is not pressed, and in the
/// dim (50, 50, 50) for an unchecked box that is not pressed, whatever its
/// focus; pressing shows the value it is about to change to.
pub proof fn lemma_checkbox_mark_shows_value(variant: CheckBoxTextureVariant)
    ensures
        checkbox_mark_color_spec(variant) == (0u8, 160u8, 0u8) <==> (variant
            == CheckBoxTextureVariant::Checked || variant == CheckBoxTextureVariant::FocusChecked),
        variant == CheckBoxTextureVariant::Idle || variant == CheckBoxTextureVariant::Focused
            ==> checkbox_mark_color_spec(variant) == (50u8, 50u8, 50u8),
        variant == CheckBoxTextureVariant::FocusedPressed ==> checkbox_mark_color_spec(variant) == (
        100u8,
        200u8,
        100u8,
        ),
        variant == CheckBoxTextureVariant::CheckedPressed || variant
            == CheckBoxTextureVariant::FocusedPressedChecked ==> checkbox_mark_color_spec(variant) == (
        50u8,
        0u8,
        20u8,
        ),
{
}

pub fn checkbox_mark_color(variant: CheckBoxTextureVariant) -> (r: (u8, u8, u8))
    ensures
        r == checkbox_mark_color_spec(variant),
{
    if variant.checked() {
        if variant.pressed() {
            (50, 0, 20)  // falling
        } else {
            (0, 160, 0)
        }
    } else if variant.pressed() {
        (100, 200, 100)  // rising
    } else {
        (50, 50, 50)
    }
}

/// a default provided check box style
#[derive(Debug, Clone, Copy, PartialEq, Eq, Structural)]
pub struct DefaultCheckBoxStyle {}

impl Default for DefaultCheckBoxStyle {
    fn default() -> (r: Self)
        ensures
            r == (DefaultCheckBoxStyle {}),
    {
        DefaultCheckBoxStyle {}
    }
}

/// the side of the square that the check mark of the default look spans
pub const CHECK_SIZE: i32 = 10i32;

/// What the default checkbox look draws on its texture.
#[derive(Debug, Clone, Copy)]
pub struct CheckBoxDrawing {
    /// the color of the corner brackets, and the brackets
    pub outline: ((u8, u8, u8), [[Point; 3]; 4]),
    /// the color of the check mark, and its strokes; nothing when the box is
    /// too small for it
    pub mark: Option<((u8, u8, u8), [[Point; 2]; 2])>,
}

impl DefaultCheckBoxStyle {
    /// What the default look draws for `variant` on a texture of `size`:
    /// nothing when the corner brackets do not fit, else the brackets in the
    /// outline color, then the check mark in the mark color when it fits.
    pub fn drawing(&self, variant: CheckBoxTextureVariant, size: (u32, u32)) -> (r: Option<
        CheckBoxDrawing,
    >)
        requires
            size_fits(size),
        ensures
            r is None <==> (size.0 <= BRACKET_REACH || size.1 <= BRACKET_REACH),
            r matches Some(d) ==> {
                &&& d.outline.0 == checkbox_outline_color_spec(variant)
                &&& d.outline.1@ == corner_bracket_spec(BRACKET_REACH, size)
                &&& (d.mark is None <==> (size.0 <= CHECK_SIZE || size.1 <= CHECK_SIZE))
                &&& (d.mark matches Some((c, m)) ==> c == checkbox_mark_color_spec(variant) && m@
                    == check_mark_spec(CHECK_SIZE, size))
            },
    {
        let brackets = match bracket_outline(size) {
            Some(b) => b,
            None => return None,  // too small to draw properly
        };
        let mark = if size.0 <= CHECK_SIZE as u32 || size.1 <= CHECK_SIZE as u32 {
            None  // too small to draw properly
        } else {
            Some((checkbox_mark_color(variant), check_mark_points(CHECK_SIZE, size)))
        };
        Some(CheckBoxDrawing { outline: (checkbox_outline_color(variant), brackets), mark })
    }
}

/// for which sound should be played, for a widget that is focusable and
/// press-able (like a checkbox or a button)
#[derive(Debug, Clone, Copy, PartialEq, Eq, Structural)]
pub enum FocusPressWidgetSoundVariant {
    /// focused or hovered
    Focus,
    Press,
    Release,
}

pub trait FocusPressWidgetSoundStyle {
    fn play_sound(&mut self, which: FocusPressWidgetSoundVariant) -> Result<(), String>;
}

/// a style which does not play any sounds
#[derive(Debug, Clone, Copy)]
pub struct EmptyFocusPressWidgetSoundStyle {}

impl FocusPressWidgetSoundStyle for EmptyFocusPressWidgetSoundStyle {
    fn play_sound(&mut self, which: FocusPressWidgetSoundVariant) -> (r: Result<(), String>)
        ensures
            r is Ok,
    {
        // nothing
        Ok(())
    }
}

/// A call that a focusable, pressable widget makes on the outside: a sound,
/// or its functionality.
#[derive(Debug, Clone, Copy, PartialEq, Eq, Structural)]
pub enum PressCall {
    Sound(FocusPressWidgetSoundVariant),
    Run,
}

/// What a focusable, pressable widget calls on the outside, its functionality
/// and its sounds, with the record of the calls made through it and of what
/// each returned.
pub struct PressEffects<'a, T: ?Sized, S: FocusPressWidgetSoundStyle + ?Sized> {
    functionality: &'a mut T,
    sounds: &'a mut S,
    made: Ghost<Seq<(PressCall, Result<(), String>)>>,
}

impl<'a, T: FnMut() -> Result<(), String> + ?Sized, S: FocusPressWidgetSoundStyle + ?Sized> PressEffects<'a, T, S> {
    /// the calls made so far, in order, each with what it returned
    pub closed spec fn made(&self) -> Seq<(PressCall, Result<(), String>)> {
        self.made@
    }

    pub fn new(functionality: &'a mut T, sounds: &'a mut S) -> (r: Self)
        ensures
            r.made() == Seq::<(PressCall, Result<(), String>)>::empty(),
    {
        PressEffects { functionality, sounds, made: Ghost(Seq::empty()) }
    }

    /// Makes the call `c` and records it.
    fn call(&mut self, c: PressCall) -> (r: Result<(), String>)
        ensures
            final(self).made() == old(self).made().push((c, r)),
    {
        let r = match c {
            PressCall::Sound(which) => self.sounds.play_sound(which),
            PressCall::Run => run_functionality(self.functionality),
        };
        self.made = Ghost(self.made@.push((c, r)));
        r
    }
}

/// What a focusable, pressable widget knows while it goes through the events
/// of a frame.
pub struct FocusPressModel {
    pub hovered: bool,
    pub pressed: bool,
    /// a focus or press sound has been earned already: rising edge detection
    pub focus_sound: bool,
    /// the focused widget
    pub focus: Option<Seq<char>>,
}

/// The state at the start of a frame, from the hover state of the previous
/// frame and the focus.
pub open spec fn focus_press_start(hovered: bool, focus: Option<Seq<char>>, me: Seq<char>) -> FocusPressModel {
    FocusPressModel {
        hovered: false,
        pressed: false,
        focus_sound: hovered || focus == Some(me),
        focus,
    }
}

/// The effect of one event that the default focus behavior did not consume:
/// the new state, and whether the widget consumes the event.
pub open spec fn focus_press_react(
    id: (Seq<char>, Seq<char>, Seq<char>),
    st: FocusPressModel,
    position: Option<Rect>,
    clipping_rect: ClippingRect,
    window_id: u32,
    e: Event,
) -> (FocusPressModel, bool) {
    let (previous, me, next) = id;
    let focused = st.focus == Some(me);
    let inside = |x: i32, y: i32|
        match position {
            Some(p) => point_in_position_and_clipping_rect_spec(x, y, p, clipping_rect),
            None => false,
        };
    match e {
        Event::KeyDown { repeat, keycode: Some(Keycode::Tab), keymod, .. } => {
            if !focused {
                (st, false)
            } else if repeat {
                (st, true)
            } else if crate::widget::shift_held(keymod) {
                (FocusPressModel { focus: Some(previous), ..st }, true)
            } else {
                (FocusPressModel { focus: Some(next), ..st }, true)
            }
        },
        Event::KeyDown { repeat, keycode: Some(Keycode::Return), .. } => {
            if !focused {
                (st, false)
            } else if repeat {
                (st, true)
            } else {
                (FocusPressModel { pressed: true, ..st }, true)
            }
        },
        Event::KeyUp { keycode: Some(Keycode::Return), .. } => {
            (st, focused)
        },
        Event::MouseMotion { left_pressed, x, y, window_id: w, .. } => {
            if w != window_id || !inside(x, y) {
                (st, false)
            } else if !left_pressed {
                (FocusPressModel { hovered: true, focus_sound: true, ..st }, false)
            } else {
                (
                    FocusPressModel {
                        hovered: true,
                        focus_sound: true,
                        pressed: true,
                        focus: Some(me),
                    },
                    false,
                )
            }
        },
        Event::MouseButtonDown { mouse_btn: MouseButton::Left, x, y, window_id: w, .. } => {
            if w != window_id || !inside(x, y) {
                (st, false)
            } else {
                (
                    FocusPressModel {
                        hovered: true,
                        focus_sound: true,
                        pressed: true,
                        focus: Some(me),
                    },
                    true,
                )
            }
        },
        Event::MouseButtonUp { mouse_btn: MouseButton::Left, x, y, window_id: w, .. } => {
            if w != window_id || !inside(x, y) {
                (st, false)
            } else {
                (
                    FocusPressModel {
                        hovered: true,
                        focus_sound: true,
                        pressed: false,
                        focus: Some(me),
                    },
                    true,
                )
            }
        },
        _ => (st, false),
    }
}

/// The effect of one event: the new state and the event's consumed status.
pub open spec fn focus_press_step(
    id: (Seq<char>, Seq<char>, Seq<char>),
    st: FocusPressModel,
    position: Option<Rect>,
    clipping_rect: ClippingRect,
    window_id: u32,
    ev: SDLEvent,
) -> (FocusPressModel, ConsumedStatus) {
    if !ev.is_available() {
        (st, ev.status())
    } else {
        let (focus, consumed) = widget_focus_spec(
            id,
            st.focus,
            position,
            clipping_rect,
            window_id,
            ev.ev(),
        );
        let st1 = FocusPressModel { focus, ..st };
        if consumed {
            (st1, ConsumedStatus::ConsumedByWidget)
        } else {
            let (st2, consume) = focus_press_react(id, st1, position, clipping_rect, window_id, ev.ev());
            (st2, if consume { ConsumedStatus::ConsumedByWidget } else { ev.status() })
        }
    }
}

/// The state after the events `evs`, from the state `st`.
pub open spec fn focus_press_fold(
    id: (Seq<char>, Seq<char>, Seq<char>),
    st: FocusPressModel,
    position: Option<Rect>,
    clipping_rect: ClippingRect,
    window_id: u32,
    evs: Seq<SDLEvent>,
) -> FocusPressModel
    decreases evs.len(),
{
    if evs.len() == 0 {
        st
    } else {
        focus_press_step(
            id,
            focus_press_fold(id, st, position, clipping_rect, window_id, evs.drop_last()),
            position,
            clipping_rect,
            window_id,
            evs.last(),
        ).0
    }
}


/// The calls on the outside that handling the event `ev` from the state `st`
/// makes when each of them succeeds. An available event that the default
/// focus behavior leaves calls out when it is enter pressed (not repeated) on
/// the focused widget: the press sound; enter released (not repeated) on the
/// focused widget: the release sound, then the functionality; mouse motion
/// over the widget before a focus or press sound was earned: the press sound
/// if the left button is held, else the focus sound; a press of the left
/// mouse button over the widget: the press sound; a release of it over the
/// widget: the release sound, then the functionality.
pub open spec fn focus_press_calls(
    id: (Seq<char>, Seq<char>, Seq<char>),
    st: FocusPressModel,
    position: Option<Rect>,
    clipping_rect: ClippingRect,
    window_id: u32,
    ev: SDLEvent,
) -> Seq<PressCall> {
    let (focus, consumed) = widget_focus_spec(id, st.focus, position, clipping_rect, window_id, ev.ev());
    let focused = focus == Some(id.1);
    let inside = |x: i32, y: i32|
        match position {
            Some(p) => point_in_position_and_clipping_rect_spec(x, y, p, clipping_rect),
            None => false,
        };
    if !ev.is_available() || consumed {
        seq![]
    } else {
        match ev.ev() {
            Event::KeyDown { repeat, keycode: Some(Keycode::Return), .. } => if focused && !repeat {
                seq![PressCall::Sound(FocusPressWidgetSoundVariant::Press)]
            } else {
                seq![]
            },
            Event::KeyUp { repeat, keycode: Some(Keycode::Return), .. } => if focused && !repeat {
                seq![PressCall::Sound(FocusPressWidgetSoundVariant::Release), PressCall::Run]
            } else {
                seq![]
            },
            Event::MouseMotion { left_pressed, x, y, window_id: w, .. } => if w == window_id
                && inside(x, y) && !st.focus_sound {
                seq![
                    PressCall::Sound(
                        if left_pressed {
                            FocusPressWidgetSoundVariant::Press
                        } else {
                            FocusPressWidgetSoundVariant::Focus
                        },
                    ),
                ]
            } else {
                seq![]
            },
            Event::MouseButtonDown { mouse_btn: MouseButton::Left, x, y, window_id: w, .. } => if w
                == window_id && inside(x, y) {
                seq![PressCall::Sound(FocusPressWidgetSoundVariant::Press)]
            } else {
                seq![]
            },
            Event::MouseButtonUp { mouse_btn: MouseButton::Left, x, y, window_id: w, .. } => if w
                == window_id && inside(x, y) {
                seq![PressCall::Sound(FocusPressWidgetSoundVariant::Release), PressCall::Run]
            } else {
                seq![]
            },
            _ => seq![],
        }
    }
}

/// The state and the event's status after a call made for the event `ev`
/// fails. Mouse motion has marked the widget hovered and the sound earned,
/// but not yet pressed or focused it; a press of the left mouse button has
/// changed nothing yet; any other event has had its whole effect.
pub open spec fn focus_press_fail(
    id: (Seq<char>, Seq<char>, Seq<char>),
    st: FocusPressModel,
    position: Option<Rect>,
    clipping_rect: ClippingRect,
    window_id: u32,
    ev: SDLEvent,
) -> (FocusPressModel, ConsumedStatus) {
    let (focus, consumed) = widget_focus_spec(id, st.focus, position, clipping_rect, window_id, ev.ev());
    let st1 = FocusPressModel { focus, ..st };
    match ev.ev() {
        Event::MouseMotion { .. } => (
            FocusPressModel { hovered: true, focus_sound: true, ..st1 },
            ev.status(),
        ),
        Event::MouseButtonDown { .. } => (st1, ev.status()),
        _ => focus_press_step(id, st, position, clipping_rect, window_id, ev),
    }
}

/// The calls on the outside that handling the events `evs` from the state
/// `st` makes when each of them succeeds, in order.
pub open spec fn focus_press_plan(
    id: (Seq<char>, Seq<char>, Seq<char>),
    st: FocusPressModel,
    position: Option<Rect>,
    clipping_rect: ClippingRect,
    window_id: u32,
    evs: Seq<SDLEvent>,
) -> Seq<PressCall>
    decreases evs.len(),
{
    if evs.len() == 0 {
        seq![]
    } else {
        focus_press_plan(id, st, position, clipping_rect, window_id, evs.drop_last())
            + focus_press_calls(
            id,
            focus_press_fold(id, st, position, clipping_rect, window_id, evs.drop_last()),
            position,
            clipping_rect,
            window_id,
            evs.last(),
        )
    }
}

/// The focus sound that an update plays first: when the widget has the focus
/// and did not have it at the end of the previous update.
pub open spec fn focus_press_start_calls(focused: bool, focused_previous_frame: bool) -> Seq<
    PressCall,
> {
    if focused && !focused_previous_frame {
        seq![PressCall::Sound(FocusPressWidgetSoundVariant::Focus)]
    } else {
        seq![]
    }
}

/// The update stopped at the event `i` of `before`, because a call made for it
/// failed: the events before it had their whole effect, it has the effect of a
/// failed call, and those after it are untouched. `hovered`, `pressed` and
/// `focus` are what it left.
pub open spec fn focus_press_stopped_at(
    id: (Seq<char>, Seq<char>, Seq<char>),
    st0: FocusPressModel,
    position: Option<Rect>,
    clipping_rect: ClippingRect,
    window_id: u32,
    before: Seq<SDLEvent>,
    after: Seq<SDLEvent>,
    i: int,
    hovered: bool,
    pressed: bool,
    focus: Option<Seq<char>>,
) -> bool {
    let fail = focus_press_fail(
        id,
        focus_press_fold(id, st0, position, clipping_rect, window_id, before.take(i)),
        position,
        clipping_rect,
        window_id,
        before[i],
    );
    &&& 0 <= i < before.len()
    &&& hovered == fail.0.hovered
    &&& pressed == fail.0.pressed
    &&& focus == fail.0.focus
    &&& after[i].status() == fail.1
    &&& forall|k: int|
        0 <= k < i ==> (#[trigger] after[k]).status() == focus_press_step(
            id,
            focus_press_fold(id, st0, position, clipping_rect, window_id, before.take(k)),
            position,
            clipping_rect,
            window_id,
            before[k],
        ).1
    &&& forall|k: int| i < k < before.len() ==> #[trigger] after[k] == before[k]
}

/// The plan for the first `j` events is the start of the plan for all of them.
pub proof fn lemma_focus_press_plan_prefix(
    id: (Seq<char>, Seq<char>, Seq<char>),
    st: FocusPressModel,
    position: Option<Rect>,
    clipping_rect: ClippingRect,
    window_id: u32,
    evs: Seq<SDLEvent>,
    j: int,
)
    requires
        0 <= j <= evs.len(),
    ensures
        focus_press_plan(id, st, position, clipping_rect, window_id, evs.take(j)).is_prefix_of(
            focus_press_plan(id, st, position, clipping_rect, window_id, evs),
        ),
    decreases evs.len(),
{
    if j == evs.len() {
        assert(evs.take(j) == evs);
    } else {
        lemma_focus_press_plan_prefix(id, st, position, clipping_rect, window_id, evs.drop_last(), j);
        assert(evs.drop_last().take(j) == evs.take(j));
    }
}

/// Law: a focusable, pressable widget never consumes mouse motion.
pub proof fn lemma_focus_press_motion_not_consumed(
    id: (Seq<char>, Seq<char>, Seq<char>),
    st: FocusPressModel,
    position: Option<Rect>,
    clipping_rect: ClippingRect,
    window_id: u32,
    ev: SDLEvent,
)
    requires
        ev.ev() is MouseMotion,
    ensures
        focus_press_step(id, st, position, clipping_rect, window_id, ev).1 == ev.status(),
{
}

/// Law: pressing the left mouse button over the visible part of the widget,
/// in its window, while the event is still available, focuses the widget,
/// shows it pressed and hovered, and consumes the event.
pub proof fn lemma_focus_press_left_down(
    id: (Seq<char>, Seq<char>, Seq<char>),
    st: FocusPressModel,
    position: Rect,
    clipping_rect: ClippingRect,
    window_id: u32,
    ev: SDLEvent,
    timestamp: u32,
    x: i32,
    y: i32,
)
    requires
        ev.is_available(),
        ev.ev() == (Event::MouseButtonDown { timestamp, window_id, mouse_btn: MouseButton::Left, x, y }),
        point_in_position_and_clipping_rect_spec(x, y, position, clipping_rect),
    ensures
        ({
            let (next, status) = focus_press_step(id, st, Some(position), clipping_rect, window_id, ev);
            &&& next.pressed
            &&& next.hovered
            &&& next.focus == Some(id.1)
            &&& status == ConsumedStatus::ConsumedByWidget
        }),
{
}

/// The plan for one event is the calls made for it.
proof fn lemma_focus_press_plan_one(
    id: (Seq<char>, Seq<char>, Seq<char>),
    st: FocusPressModel,
    position: Option<Rect>,
    clipping_rect: ClippingRect,
    window_id: u32,
    ev: SDLEvent,
)
    ensures
        focus_press_plan(id, st, position, clipping_rect, window_id, seq![ev]) == focus_press_calls(
            id,
            st,
            position,
            clipping_rect,
            window_id,
            ev,
        ),
{
    let none = seq![ev].drop_last();
    assert(none == Seq::<SDLEvent>::empty());
    assert(focus_press_fold(id, st, position, clipping_rect, window_id, none) == st);
    assert(focus_press_plan(id, st, position, clipping_rect, window_id, none) == Seq::<PressCall>::empty());
    let c = focus_press_calls(id, st, position, clipping_rect, window_id, ev);
    assert(Seq::<PressCall>::empty() + c == c);
}

/// Law: a press of the left mouse button over the visible part of the widget,
/// in its window, while the event is still available, plays the press sound
/// and runs nothing.
pub proof fn lemma_focus_press_left_down_calls(
    id: (Seq<char>, Seq<char>, Seq<char>),
    st: FocusPressModel,
    position: Rect,
    clipping_rect: ClippingRect,
    window_id: u32,
    ev: SDLEvent,
    timestamp: u32,
    x: i32,
    y: i32,
)
    requires
        ev.is_available(),
        ev.ev() == (Event::MouseButtonDown { timestamp, window_id, mouse_btn: MouseButton::Left, x, y }),
        point_in_position_and_clipping_rect_spec(x, y, position, clipping_rect),
    ensures
        focus_press_plan(id, st, Some(position), clipping_rect, window_id, seq![ev])
            == seq![PressCall::Sound(FocusPressWidgetSoundVariant::Press)],
{
    lemma_focus_press_plan_one(id, st, Some(position), clipping_rect, window_id, ev);
}

/// Law: a release of the left mouse button over the visible part of the
/// widget, in its window, while the event is still available, plays the
/// release sound and then runs the functionality once; it leaves the widget
/// focused, hovered and not pressed, and consumes the event.
pub proof fn lemma_focus_press_click(
    id: (Seq<char>, Seq<char>, Seq<char>),
    st: FocusPressModel,
    position: Rect,
    clipping_rect: ClippingRect,
    window_id: u32,
    ev: SDLEvent,
    timestamp: u32,
    x: i32,
    y: i32,
)
    requires
        ev.is_available(),
        ev.ev() == (Event::MouseButtonUp { timestamp, window_id, mouse_btn: MouseButton::Left, x, y }),
        point_in_position_and_clipping_rect_spec(x, y, position, clipping_rect),
    ensures
        focus_press_plan(id, st, Some(position), clipping_rect, window_id, seq![ev])
            == seq![PressCall::Sound(FocusPressWidgetSoundVariant::Release), PressCall::Run],
        ({
            let (next, status) = focus_press_step(id, st, Some(position), clipping_rect, window_id, ev);
            &&& next.focus == Some(id.1)
            &&& next.hovered
            &&& !next.pressed
            &&& status == ConsumedStatus::ConsumedByWidget
        }),
{
    lemma_focus_press_plan_one(id, st, Some(position), clipping_rect, window_id, ev);
}

/// Law: releasing enter (not repeated) while the event is still available
/// plays the release sound and then runs the functionality once, consuming the
/// event, when the widget has the focus; else it calls nothing and leaves the
/// event alone.
pub proof fn lemma_focus_press_enter_release(
    id: (Seq<char>, Seq<char>, Seq<char>),
    st: FocusPressModel,
    position: Option<Rect>,
    clipping_rect: ClippingRect,
    window_id: u32,
    ev: SDLEvent,
    timestamp: u32,
    w: u32,
    keymod: u16,
)
    requires
        ev.is_available(),
        ev.ev() == (Event::KeyUp {
            timestamp,
            window_id: w,
            keycode: Some(Keycode::Return),
            keymod,
            repeat: false,
        }),
    ensures
        focus_press_plan(id, st, position, clipping_rect, window_id, seq![ev]) == if st.focus == Some(
            id.1,
        ) {
            seq![PressCall::Sound(FocusPressWidgetSoundVariant::Release), PressCall::Run]
        } else {
            seq![]
        },
        focus_press_step(id, st, position, clipping_rect, window_id, ev).1 == if st.focus == Some(
            id.1,
        ) {
            ConsumedStatus::ConsumedByWidget
        } else {
            ev.status()
        },
{
    lemma_focus_press_plan_one(id, st, position, clipping_rect, window_id, ev);
}

/// Law: when the widget has the focus at the start of an update and did not
/// have it at the end of the previous one, the first call of the update is
/// the focus sound.
pub proof fn lemma_focus_press_focus_sound_first(
    plan: Seq<PressCall>,
    made: Seq<(PressCall, Result<(), String>)>,
    r: Result<(), String>,
)
    requires
        calls_made(made, focus_press_start_calls(true, false) + plan, r),
    ensures
        made.len() >= 1,
        made[0].0 == PressCall::Sound(FocusPressWidgetSoundVariant::Focus),
{
    lemma_calls_made_first(made, focus_press_start_calls(true, false) + plan, r);
}

/// Law: an event that another widget consumed already is left alone.
pub proof fn lemma_focus_press_ignores_consumed(
    id: (Seq<char>, Seq<char>, Seq<char>),
    st: FocusPressModel,
    position: Option<Rect>,
    clipping_rect: ClippingRect,
    window_id: u32,
    ev: SDLEvent,
)
    requires
        !ev.is_available(),
    ensures
        focus_press_step(id, st, position, clipping_rect, window_id, ev) == (st, ev.status()),
{
}

/// Law: a focusable, pressable widget only consumes events that are still
/// available, and then as a widget: every event's consumed status is either
/// left as it was or goes from available to consumed by a widget.
pub proof fn lemma_focus_press_consumes_only_available(
    id: (Seq<char>, Seq<char>, Seq<char>),
    st: FocusPressModel,
    position: Option<Rect>,
    clipping_rect: ClippingRect,
    window_id: u32,
    ev: SDLEvent,
)
    ensures
        ({
            let status = focus_press_step(id, st, position, clipping_rect, window_id, ev).1;
            status == ev.status() || (ev.is_available() && status == ConsumedStatus::ConsumedByWidget)
        }),
{
}

/// What a widget sees of an event, copied out of it.
enum EventKind {
    KeyDownTab { repeat: bool, shift: bool },
    KeyDownReturn { repeat: bool },
    KeyUpReturn { repeat: bool },
    MouseMotion { left_pressed: bool, x: i32, y: i32, window_id: u32 },
    LeftDown { x: i32, y: i32, window_id: u32 },
    LeftUp { x: i32, y: i32, window_id: u32 },
    Other,
}

fn event_kind(e: &Event) -> (r: EventKind)
    ensures
        match *e {
            Event::KeyDown { repeat, keycode: Some(Keycode::Tab), keymod, .. } => r == (
            EventKind::KeyDownTab { repeat, shift: crate::widget::shift_held(keymod) }),
            Event::KeyDown { repeat, keycode: Some(Keycode::Return), .. } => r == (
            EventKind::KeyDownReturn { repeat }),
            Event::KeyUp { repeat, keycode: Some(Keycode::Return), .. } => r == (
            EventKind::KeyUpReturn { repeat }),
            Event::MouseMotion { left_pressed, x, y, window_id, .. } => r == (
            EventKind::MouseMotion { left_pressed, x, y, window_id }),
            Event::MouseButtonDown { mouse_btn: MouseButton::Left, x, y, window_id, .. } => r == (
            EventKind::LeftDown { x, y, window_id }),
            Event::MouseButtonUp { mouse_btn: MouseButton::Left, x, y, window_id, .. } => r == (
            EventKind::LeftUp { x, y, window_id }),
            _ => r == EventKind::Other,
        },
{
    match e {
        Event::KeyDown { repeat, keycode: Some(Keycode::Tab), keymod, .. } => EventKind::KeyDownTab {
            repeat: *repeat,
            shift: crate::widget::is_shift_held(*keymod),
        },
        Event::KeyDown { repeat, keycode: Some(Keycode::Return), .. } => EventKind::KeyDownReturn {
            repeat: *repeat,
        },
        Event::KeyUp { repeat, keycode: Some(Keycode::Return), .. } => EventKind::KeyUpReturn {
            repeat: *repeat,
        },
        Event::MouseMotion { left_pressed, x, y, window_id, .. } => EventKind::MouseMotion {
            left_pressed: *left_pressed,
            x: *x,
            y: *y,
            window_id: *window_id,
        },
        Event::MouseButtonDown { mouse_btn: MouseButton::Left, x, y, window_id, .. } => {
            EventKind::LeftDown { x: *x, y: *y, window_id: *window_id }
        },
        Event::MouseButtonUp { mouse_btn: MouseButton::Left, x, y, window_id, .. } => {
            EventKind::LeftUp { x: *x, y: *y, window_id: *window_id }
        },
        _ => EventKind::Other,
    }
}

fn inside(x: i32, y: i32, position: Option<Rect>, clipping_rect: ClippingRect) -> (r: bool)
    ensures
        r == match position {
            Some(p) => point_in_position_and_clipping_rect_spec(x, y, p, clipping_rect),
            None => false,
        },
{
    match position {
        Some(p) => point_in_position_and_clipping_rect(x, y, p, clipping_rect),
        None => false,
    }
}


/// The reaction of a focusable, pressable widget to one event: the default
/// focus behavior, then, if the event is still available, the widget's own
/// reaction, with the calls of `focus_press_calls` made through `effects`.
/// When they all succeed the state and the event's status are those of
/// `focus_press_step`, else those of `focus_press_fail`.
fn focus_press_event<T: FnMut() -> Result<(), String> + ?Sized, S: FocusPressWidgetSoundStyle + ?Sized>(
    hovered: &mut bool,
    pressed: &mut bool,
    focus_sound_state: &mut bool,
    focus_id: &FocusID,
    focus_manager: &mut FocusManager,
    position: Option<Rect>,
    clipping_rect: ClippingRect,
    window_id: u32,
    event: &mut SDLEvent,
    effects: &mut PressEffects<T, S>,
) -> (r: Result<(), String>)
    ensures
        final(event).ev() == old(event).ev(),
        ({
            let st = FocusPressModel {
                hovered: *old(hovered),
                pressed: *old(pressed),
                focus_sound: *old(focus_sound_state),
                focus: old(focus_manager).focused(),
            };
            let (next, status) = if r is Ok {
                focus_press_step(focus_id@, st, position, clipping_rect, window_id, *old(event))
            } else {
                focus_press_fail(focus_id@, st, position, clipping_rect, window_id, *old(event))
            };
            let n = old(effects).made().len();
            &&& final(effects).made().len() >= n
            &&& final(effects).made().take(n as int) == old(effects).made()
            &&& calls_made(
                final(effects).made().skip(n as int),
                focus_press_calls(focus_id@, st, position, clipping_rect, window_id, *old(event)),
                r,
            )
            &&& *final(hovered) == next.hovered
            &&& *final(pressed) == next.pressed
            &&& *final(focus_sound_state) == next.focus_sound
            &&& final(focus_manager).focused() == next.focus
            &&& final(event).status() == status
        }),
{
    let ghost made0 = effects.made();
    assert(effects.made().skip(made0.len() as int) == Seq::<(PressCall, Result<(), String>)>::empty());
    assert(effects.made().take(made0.len() as int) == made0);
    assert(succeeded(Seq::<PressCall>::empty()) == Seq::<(PressCall, Result<(), String>)>::empty());
    if !event.available() {
        return Ok(());
    }
    FocusManager::default_widget_focus_behavior(
        focus_id,
        focus_manager,
        position,
        clipping_rect,
        window_id,
        event,
    );
    if event.consumed() {
        return Ok(());  // consumed as a result of default_widget_focus_behavior
    }
    let kind = event_kind(event.event());
    match kind {
        // tab and shift tab go to next, previous widget respectively. only if
        // this current widget is focused. and consume the event
        EventKind::KeyDownTab { repeat, shift } => {
            if focus_manager.is_focused(focus_id) {
                event.set_consumed();
                if !repeat {
                    if shift {
                        focus_manager.0 = Some(focus_id.previous.clone());
                    } else {
                        focus_manager.0 = Some(focus_id.next.clone());
                    }
                }
            }
        },
        // enter key pressed down. only if currently focused
        EventKind::KeyDownReturn { repeat } => {
            if focus_manager.is_focused(focus_id) {
                event.set_consumed();
                if !repeat {
                    *pressed = true;
                    let r = effects.call(PressCall::Sound(FocusPressWidgetSoundVariant::Press));
                    proof { lemma_one_call_made(made0, effects.made(), PressCall::Sound(FocusPressWidgetSoundVariant::Press), r); }
                    return r;
                }
            }
        },
        // enter key released. only if currently focused.
        EventKind::KeyUpReturn { repeat } => {
            if focus_manager.is_focused(focus_id) {
                // consume before trying functionality
                event.set_consumed();
                if !repeat {
                    return release_and_run(effects);
                }
            }
        },
        // mouse:
        // - consume mouse down and up (but not mouse motion)
        // - doesn't check if currently focused (mouse over widget + events
        //   haven't been consumed is good enough)
        // - sets focus to current widget when consumed
        EventKind::MouseMotion { left_pressed, x, y, window_id: w } => {
            if w == window_id && inside(x, y, position, clipping_rect) {
                *hovered = true;
                if !left_pressed {
                    if !*focus_sound_state {
                        *focus_sound_state = true;
                        let c = PressCall::Sound(FocusPressWidgetSoundVariant::Focus);
                        let r = effects.call(c);
                        proof { lemma_one_call_made(made0, effects.made(), c, r); }
                        return r;
                    }
                } else {
                    if !*focus_sound_state {
                        *focus_sound_state = true;
                        let c = PressCall::Sound(FocusPressWidgetSoundVariant::Press);
                        let r = effects.call(c);
                        proof { lemma_one_call_made(made0, effects.made(), c, r); }
                        if r.is_err() {
                            return r;
                        }
                    }
                    // the mouse was moved over the widget AND the left button
                    // is pressed
                    //
                    // generally never consume mouse motion events
                    *pressed = true;
                    focus_manager.0 = Some(focus_id.me.clone());
                }
            }
        },
        EventKind::LeftDown { x, y, window_id: w } => {
            if w == window_id && inside(x, y, position, clipping_rect) {
                let c = PressCall::Sound(FocusPressWidgetSoundVariant::Press);
                let r = effects.call(c);
                proof { lemma_one_call_made(made0, effects.made(), c, r); }
                if r.is_err() {
                    return r;
                }
                // the left mouse button was pressed on this widget
                *pressed = true;
                *hovered = true;
                *focus_sound_state = true;
                event.set_consumed();
                focus_manager.0 = Some(focus_id.me.clone());
            }
        },
        EventKind::LeftUp { x, y, window_id: w } => {
            // ok even if not focused (button click works even if no focus
            // manager is used at all)
            if w == window_id && inside(x, y, position, clipping_rect) {
                *pressed = false;
                *hovered = true;
                *focus_sound_state = true;
                event.set_consumed();
                focus_manager.0 = Some(focus_id.me.clone());
                return release_and_run(effects);
            }
        },
        EventKind::Other => {},
    }
    Ok(())
}

/// One call `c` made after the calls `before`, with the outcome `ok`.
proof fn lemma_one_call_made(
    before: Seq<(PressCall, Result<(), String>)>,
    after: Seq<(PressCall, Result<(), String>)>,
    c: PressCall,
    r: Result<(), String>,
)
    requires
        after == before.push((c, r)),
    ensures
        after.take(before.len() as int) == before,
        calls_made(after.skip(before.len() as int), seq![c], r),
{
    let made = after.skip(before.len() as int);
    assert(after.take(before.len() as int) == before);
    assert(made == seq![(c, r)]);
    if r is Ok {
        lemma_ok_is_unit(r);
        assert(succeeded(seq![c]) == seq![(c, Ok::<(), String>(()))]);
    } else {
        assert(made.drop_last() == Seq::<(PressCall, Result<(), String>)>::empty());
        assert(seq![c].take(0) == Seq::<PressCall>::empty());
        assert(succeeded(Seq::<PressCall>::empty()) == Seq::<(PressCall, Result<(), String>)>::empty());
    }
}

/// The release sound, then, if it played, the functionality.
fn release_and_run<T: FnMut() -> Result<(), String> + ?Sized, S: FocusPressWidgetSoundStyle + ?Sized>(
    effects: &mut PressEffects<T, S>,
) -> (r: Result<(), String>)
    ensures
        ({
            let n = old(effects).made().len();
            &&& final(effects).made().len() >= n
            &&& final(effects).made().take(n as int) == old(effects).made()
            &&& calls_made(
                final(effects).made().skip(n as int),
                seq![PressCall::Sound(FocusPressWidgetSoundVariant::Release), PressCall::Run],
                r,
            )
        }),
{
    let ghost made0 = effects.made();
    let ghost plan = seq![PressCall::Sound(FocusPressWidgetSoundVariant::Release), PressCall::Run];
    let r = effects.call(PressCall::Sound(FocusPressWidgetSoundVariant::Release));
    if r.is_err() {
        let ghost made = effects.made().skip(made0.len() as int);
        assert(made == seq![(plan[0], r)]);
        assert(made.drop_last() == Seq::<(PressCall, Result<(), String>)>::empty());
        assert(plan.take(0) == Seq::<PressCall>::empty());
        assert(succeeded(plan.take(0)) == Seq::<(PressCall, Result<(), String>)>::empty());
        assert(effects.made().take(made0.len() as int) == made0);
        return r;
    }
    let ghost r0 = r;
    let r = effects.call(PressCall::Run);
    let ghost made = effects.made().skip(made0.len() as int);
    assert(effects.made().take(made0.len() as int) == made0);
    assert(made == seq![(plan[0], r0), (plan[1], r)]);
    proof {
        lemma_ok_is_unit(r0);
    }
    if r.is_err() {
        assert(made.drop_last() == seq![(plan[0], Ok::<(), String>(()))]);
        assert(plan.take(1) == seq![plan[0]]);
        assert(succeeded(plan.take(1)) == seq![(plan[0], Ok::<(), String>(()))]);
    } else {
        proof {
            lemma_ok_is_unit(r);
        }
        assert(succeeded(plan) == seq![(plan[0], Ok::<(), String>(())), (plan[1], Ok::<(), String>(()))]);
    }
    r
}


/// update implementation for something which can be focused and pressed.
///
/// `position` is the widget's position on the pixel grid (nothing if it has
/// no area). Each event that is still available is first given to the default
/// focus behavior and then, if that did not consume it, reacted to: enter and
/// the left mouse button press and release the widget, and a release runs the
/// functionality. Sounds are played on the rising edge of focus or hover, and
/// on press and release. The calls go through `effects`, in the order of
/// `focus_press_start_calls` and `focus_press_plan`; the first that fails ends
/// the update, and its error is returned.
pub fn focus_press_update_implementation<T: FnMut() -> Result<(), String> + ?Sized, S: FocusPressWidgetSoundStyle + ?Sized>(
    hovered: &mut bool,
    pressed: &mut bool,
    focused_previous_frame: &mut bool,
    focus_id: &FocusID,
    focus_manager: &mut FocusManager,
    position: Option<Rect>,
    clipping_rect: ClippingRect,
    window_id: u32,
    events: &mut [SDLEvent],
    effects: &mut PressEffects<T, S>,
) -> (r: Result<(), String>)
    ensures
        final(events)@.len() == old(events)@.len(),
        forall|i: int|
            0 <= i < old(events)@.len() ==> (#[trigger] final(events)@[i]).ev() == old(
                events,
            )@[i].ev(),
        ({
            let st0 = focus_press_start(*old(hovered), old(focus_manager).focused(), focus_id.me@);
            let start = focus_press_start_calls(
                old(focus_manager).focused() == Some(focus_id.me@),
                *old(focused_previous_frame),
            );
            let plan = focus_press_plan(
                focus_id@,
                st0,
                position,
                clipping_rect,
                window_id,
                old(events)@,
            );
            let n = old(effects).made().len();
            &&& final(effects).made().len() >= n
            &&& final(effects).made().take(n as int) == old(effects).made()
            &&& calls_made(final(effects).made().skip(n as int), start + plan, r)
        }),
        // an error is what the last call made returned
        r is Err ==> final(effects).made().len() > old(effects).made().len()
            && final(effects).made().last().1 == r,
        r is Ok ==> ({
            let st0 = focus_press_start(*old(hovered), old(focus_manager).focused(), focus_id.me@);
            let st = focus_press_fold(
                focus_id@,
                st0,
                position,
                clipping_rect,
                window_id,
                old(events)@,
            );
            &&& *final(hovered) == st.hovered
            &&& *final(pressed) == st.pressed
            &&& final(focus_manager).focused() == st.focus
            &&& *final(focused_previous_frame) == (st.focus == Some(focus_id.me@))
            &&& forall|i: int|
                0 <= i < old(events)@.len() ==> (#[trigger] final(events)@[i]).status()
                    == focus_press_step(
                    focus_id@,
                    focus_press_fold(
                        focus_id@,
                        st0,
                        position,
                        clipping_rect,
                        window_id,
                        old(events)@.take(i),
                    ),
                    position,
                    clipping_rect,
                    window_id,
                    old(events)@[i],
                ).1
        }),
        r is Err ==> ({
            let st0 = focus_press_start(*old(hovered), old(focus_manager).focused(), focus_id.me@);
            let start = focus_press_start_calls(
                old(focus_manager).focused() == Some(focus_id.me@),
                *old(focused_previous_frame),
            );
            let made = final(effects).made().skip(old(effects).made().len() as int);
            &&& *final(focused_previous_frame) == *old(focused_previous_frame)
            &&& {
                // the focus sound at the start failed: nothing else changed
                ||| {
                    &&& start.len() == 1
                    &&& made.len() == 1
                    &&& *final(hovered) == *old(hovered)
                    &&& *final(pressed) == *old(pressed)
                    &&& final(focus_manager).focused() == old(focus_manager).focused()
                    &&& final(events)@ == old(events)@
                }
                // a call made for the event `i` failed
                ||| exists|i: int|
                    {
                        &&& start.len() + focus_press_plan(
                            focus_id@,
                            st0,
                            position,
                            clipping_rect,
                            window_id,
                            old(events)@.take(i),
                        ).len() < made.len()
                        &&& made.len() <= start.len() + focus_press_plan(
                            focus_id@,
                            st0,
                            position,
                            clipping_rect,
                            window_id,
                            old(events)@.take(i + 1),
                        ).len()
                        &&& #[trigger] focus_press_stopped_at(
                            focus_id@,
                            st0,
                            position,
                            clipping_rect,
                            window_id,
                            old(events)@,
                            final(events)@,
                            i,
                            *final(hovered),
                            *final(pressed),
                            final(focus_manager).focused(),
                        )
                    }
            }
        }),
{
    let ghost id = focus_id@;
    let ghost initial = events@;
    let ghost st0 = focus_press_start(*hovered, focus_manager.focused(), focus_id.me@);
    let ghost made0 = effects.made();
    let ghost n0 = made0.len() as int;
    let has_focus_at_beginning = focus_manager.is_focused(focus_id);
    let ghost start = focus_press_start_calls(has_focus_at_beginning, *focused_previous_frame);

    // detect if focus was sent to this widget for any reason by something else
    // since the last time it was updated
    if has_focus_at_beginning && !*focused_previous_frame {
        let c = PressCall::Sound(FocusPressWidgetSoundVariant::Focus);
        let r = effects.call(c);
        proof {
            lemma_one_call_made(made0, effects.made(), c, r);
            assert(start == seq![c]);
        }
        if r.is_err() {
            proof {
                lemma_calls_made_prefix(effects.made().skip(n0), start, start + focus_press_plan(id, st0, position, clipping_rect, window_id, initial), r);
                lemma_error_is_last(effects.made(), n0, start + focus_press_plan(id, st0, position, clipping_rect, window_id, initial), r);
            }
            return r;
        }
    } else {
        assert(effects.made().skip(n0) == Seq::<(PressCall, Result<(), String>)>::empty());
    }
    assert(effects.made().skip(n0) == succeeded(start));
    // used to detect rising edge, for when the focus or hover is gained on the
    // widget. at that point, play sound
    let mut focus_sound_state = *hovered || has_focus_at_beginning;

    // value updated each frame
    *hovered = false;
    *pressed = false;

    let len = events.len();
    let mut i: usize = 0;
    assert(initial.take(len as int) == initial);
    assert(initial.take(0) == Seq::<SDLEvent>::empty());
    assert(start + focus_press_plan(id, st0, position, clipping_rect, window_id, initial.take(0)) == start);
    while i < len
        invariant
            id == focus_id@,
            len == events@.len(),
            initial.len() == len,
            initial.take(len as int) == initial,
            i <= len,
            *focused_previous_frame == *old(focused_previous_frame),
            start == focus_press_start_calls(
                old(focus_manager).focused() == Some(focus_id.me@),
                *old(focused_previous_frame),
            ),
            st0 == focus_press_start(*old(hovered), old(focus_manager).focused(), focus_id.me@),
            initial == old(events)@,
            made0 == old(effects).made(),
            n0 == made0.len(),
            effects.made().len() >= n0,
            effects.made().take(n0) == made0,
            effects.made().skip(n0) == succeeded(
                start + focus_press_plan(id, st0, position, clipping_rect, window_id, initial.take(i as int)),
            ),
            forall|k: int| 0 <= k < len ==> (#[trigger] events@[k]).ev() == initial[k].ev(),
            ({
                let st = focus_press_fold(id, st0, position, clipping_rect, window_id, initial.take(i as int));
                &&& *hovered == st.hovered
                &&& *pressed == st.pressed
                &&& focus_sound_state == st.focus_sound
                &&& focus_manager.focused() == st.focus
            }),
            forall|k: int| i <= k < len ==> #[trigger] events@[k] == initial[k],
            forall|k: int|
                0 <= k < i ==> (#[trigger] events@[k]).status() == focus_press_step(
                    id,
                    focus_press_fold(id, st0, position, clipping_rect, window_id, initial.take(k)),
                    position,
                    clipping_rect,
                    window_id,
                    initial[k],
                ).1,
        decreases len - i,
    {
        let ghost done = start + focus_press_plan(id, st0, position, clipping_rect, window_id, initial.take(i as int));
        let ghost st_i = focus_press_fold(id, st0, position, clipping_rect, window_id, initial.take(i as int));
        let ghost now = focus_press_calls(id, st_i, position, clipping_rect, window_id, initial[i as int]);
        let ghost before = effects.made();
        assert(initial.take(i + 1).drop_last() == initial.take(i as int));
        assert(focus_press_plan(id, st0, position, clipping_rect, window_id, initial.take(i + 1))
            == focus_press_plan(id, st0, position, clipping_rect, window_id, initial.take(i as int)) + now);
        let r = focus_press_event(
            hovered,
            pressed,
            &mut focus_sound_state,
            focus_id,
            focus_manager,
            position,
            clipping_rect,
            window_id,
            &mut events[i],
            effects,
        );
        proof {
            let e = effects.made().skip(before.len() as int);
            assert(effects.made() == before + e) by {
                assert(effects.made() == effects.made().take(before.len() as int) + e);
            }
            assert(effects.made().skip(n0) == before.skip(n0) + e);
            assert(effects.made().take(n0) == made0);
            lemma_calls_made_after(done, now, e, r);
            assert(done + now == start + focus_press_plan(id, st0, position, clipping_rect, window_id, initial.take(i + 1)));
        }
        if r.is_err() {
            proof {
                lemma_focus_press_plan_prefix(id, st0, position, clipping_rect, window_id, initial, i + 1);
                lemma_calls_made_prefix(
                    effects.made().skip(n0),
                    done + now,
                    start + focus_press_plan(id, st0, position, clipping_rect, window_id, initial),
                    r,
                );
                assert(focus_press_stopped_at(
                    id,
                    st0,
                    position,
                    clipping_rect,
                    window_id,
                    initial,
                    events@,
                    i as int,
                    *hovered,
                    *pressed,
                    focus_manager.focused(),
                ));
                lemma_error_is_last(
                    effects.made(),
                    n0,
                    start + focus_press_plan(id, st0, position, clipping_rect, window_id, initial),
                    r,
                );
            }
            return r;
        }
        i = i + 1;
    }
    *focused_previous_frame = focus_manager.is_focused(focus_id);
    Ok(())
}

} // verus!
